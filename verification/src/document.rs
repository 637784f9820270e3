//! The table of open documents: for each URI the current full text and the
//! version that the client last gave it.

use crate::edit::{apply_changes, apply_edits, ContentChange, ContentChangeView};
use crate::protocol::ErrorKind;
use vstd::prelude::*;

verus! {

/// A document that the client has open.
#[derive(Clone, Debug, PartialEq, Eq)]
pub struct OpenDocument {
    pub uri: String,
    pub text: String,
    pub version: i32,
}

/// What the table holds for one URI.
pub struct DocumentView {
    pub text: Seq<char>,
    pub version: int,
}

impl View for OpenDocument {
    type V = DocumentView;

    open spec fn view(&self) -> DocumentView {
        DocumentView { text: self.text@, version: self.version as int }
    }
}

/// Why a change was not applied.
#[derive(Clone, Copy, Debug, PartialEq, Eq, Structural)]
pub enum DocumentError {
    /// The URI is not open.
    UnknownDocument,
    /// The version is not above the one that the document has.
    StaleVersion,
    /// A range of the change denotes no part of the text.
    InvalidRange,
}

impl DocumentError {
    /// The kind of error under which a refused change is reported: for
    /// every reason, that of invalid parameters.
    pub fn kind(self) -> (kind: ErrorKind)
        ensures
            kind == ErrorKind::InvalidParams,
    {
        ErrorKind::InvalidParams
    }
}

/// What a change does to the document of `uri` in `table`: the document's
/// new state, or the reason why there is none.
pub open spec fn change_outcome(
    table: Map<Seq<char>, DocumentView>,
    uri: Seq<char>,
    version: int,
    changes: Seq<ContentChangeView>,
) -> Result<DocumentView, DocumentError> {
    if !table.dom().contains(uri) {
        Err(DocumentError::UnknownDocument)
    } else if version <= table[uri].version {
        Err(DocumentError::StaleVersion)
    } else {
        match apply_edits(table[uri].text, changes) {
            Some(text) => Ok(DocumentView { text, version }),
            None => Err(DocumentError::InvalidRange),
        }
    }
}

spec fn distinct(docs: Seq<OpenDocument>) -> bool {
    forall|i: int, j: int| 0 <= i < j < docs.len() ==> docs[i].uri@ != docs[j].uri@
}

spec fn holds(docs: Seq<OpenDocument>, uri: Seq<char>) -> bool {
    exists|i: int| 0 <= i < docs.len() && #[trigger] docs[i].uri@ == uri
}

spec fn table_of(docs: Seq<OpenDocument>) -> Map<Seq<char>, DocumentView> {
    Map::new(
        |uri: Seq<char>| holds(docs, uri),
        |uri: Seq<char>|
            docs[choose|i: int| 0 <= i < docs.len() && #[trigger] docs[i].uri@ == uri]@,
    )
}

proof fn lemma_table_at(docs: Seq<OpenDocument>, i: int)
    requires
        distinct(docs),
        0 <= i < docs.len(),
    ensures
        table_of(docs).dom().contains(docs[i].uri@),
        table_of(docs)[docs[i].uri@] == docs[i]@,
{
    let uri = docs[i].uri@;
    assert(holds(docs, uri));
    let j = choose|j: int| 0 <= j < docs.len() && #[trigger] docs[j].uri@ == uri;
    assert(j == i);
}

proof fn lemma_table_push(docs: Seq<OpenDocument>, doc: OpenDocument)
    requires
        distinct(docs),
        !holds(docs, doc.uri@),
    ensures
        distinct(docs.push(doc)),
        table_of(docs.push(doc)) == table_of(docs).insert(doc.uri@, doc@),
{
    let more = docs.push(doc);
    assert forall|i: int, j: int| 0 <= i < j < more.len() implies more[i].uri@ != more[j].uri@ by {
        if j == docs.len() {
            assert(more[i] == docs[i]);
        }
    }
    assert forall|uri: Seq<char>| holds(more, uri) <==> (uri == doc.uri@ || holds(docs, uri)) by {
        if holds(docs, uri) {
            let i = choose|i: int| 0 <= i < docs.len() && #[trigger] docs[i].uri@ == uri;
            assert(more[i].uri@ == uri);
        }
        if uri == doc.uri@ {
            assert(more[docs.len() as int].uri@ == uri);
        }
        if holds(more, uri) {
            let i = choose|i: int| 0 <= i < more.len() && #[trigger] more[i].uri@ == uri;
            if i < docs.len() {
                assert(docs[i].uri@ == uri);
            }
        }
    }
    assert forall|uri: Seq<char>| holds(more, uri) implies table_of(more)[uri] == table_of(
        docs,
    ).insert(doc.uri@, doc@)[uri] by {
        let i = choose|i: int| 0 <= i < more.len() && #[trigger] more[i].uri@ == uri;
        lemma_table_at(more, i);
        if i < docs.len() {
            assert(more[i] == docs[i]);
            lemma_table_at(docs, i);
        }
    }
    assert(table_of(more) =~= table_of(docs).insert(doc.uri@, doc@));
}

proof fn lemma_table_remove(docs: Seq<OpenDocument>, i: int)
    requires
        distinct(docs),
        0 <= i < docs.len(),
    ensures
        distinct(docs.remove(i)),
        !holds(docs.remove(i), docs[i].uri@),
        table_of(docs.remove(i)) == table_of(docs).remove(docs[i].uri@),
{
    let less = docs.remove(i);
    let gone = docs[i].uri@;
    assert forall|a: int| 0 <= a < less.len() implies #[trigger] less[a] == docs[if a < i {
        a
    } else {
        a + 1
    }] by {}
    assert forall|a: int, b: int| 0 <= a < b < less.len() implies less[a].uri@ != less[b].uri@ by {
        assert(less[a] == docs[if a < i { a } else { a + 1 }]);
        assert(less[b] == docs[if b < i { b } else { b + 1 }]);
    }
    assert(!holds(less, gone)) by {
        if holds(less, gone) {
            let a = choose|a: int| 0 <= a < less.len() && #[trigger] less[a].uri@ == gone;
            assert(less[a] == docs[if a < i { a } else { a + 1 }]);
        }
    }
    assert forall|uri: Seq<char>| holds(less, uri) <==> (uri != gone && holds(docs, uri)) by {
        if holds(less, uri) {
            let a = choose|a: int| 0 <= a < less.len() && #[trigger] less[a].uri@ == uri;
            assert(less[a] == docs[if a < i { a } else { a + 1 }]);
            assert(docs[if a < i { a } else { a + 1 }].uri@ == uri);
        }
        if uri != gone && holds(docs, uri) {
            let b = choose|b: int| 0 <= b < docs.len() && #[trigger] docs[b].uri@ == uri;
            let a = if b < i { b } else { b - 1 };
            assert(less[a] == docs[b]);
            assert(less[a].uri@ == uri);
        }
    }
    assert forall|uri: Seq<char>| holds(less, uri) implies table_of(less)[uri] == table_of(
        docs,
    ).remove(gone)[uri] by {
        let a = choose|a: int| 0 <= a < less.len() && #[trigger] less[a].uri@ == uri;
        lemma_table_at(less, a);
        let b = if a < i { a } else { a + 1 };
        assert(less[a] == docs[b]);
        lemma_table_at(docs, b);
    }
    assert(table_of(less) =~= table_of(docs).remove(gone));
}

/// Index of the document of `uri`.
fn position(docs: &Vec<OpenDocument>, uri: &String) -> (r: Option<usize>)
    ensures
        match r {
            Some(i) => i < docs.len() && docs[i as int].uri@ == uri@,
            None => !holds(docs@, uri@),
        },
{
    let mut i: usize = 0;
    while i < docs.len()
        invariant
            i <= docs.len(),
            forall|j: int| 0 <= j < i ==> docs[j].uri@ != uri@,
        decreases docs.len() - i,
    {
        if docs[i].uri == *uri {
            return Some(i);
        }
        i += 1;
    }
    None
}

/// The open documents of one session, keyed by URI.
#[derive(Debug)]
pub struct DocumentStore {
    docs: Vec<OpenDocument>,
}

impl View for DocumentStore {
    type V = Map<Seq<char>, DocumentView>;

    closed spec fn view(&self) -> Map<Seq<char>, DocumentView> {
        table_of(self.docs@)
    }
}

impl DocumentStore {
    #[verifier::type_invariant]
    spec fn unique_uris(self) -> bool {
        distinct(self.docs@)
    }

    /// A table without documents.
    pub fn new() -> (store: Self)
        ensures
            store@ == Map::<Seq<char>, DocumentView>::empty(),
    {
        let store = DocumentStore { docs: Vec::new() };
        assert(store@ =~= Map::<Seq<char>, DocumentView>::empty());
        store
    }

    /// Opens `uri` with the given text and version. A document that was
    /// open under that URI is replaced.
    pub fn open(&mut self, uri: String, text: String, version: i32)
        ensures
            final(self)@ == old(self)@.insert(
                uri@,
                DocumentView { text: text@, version: version as int },
            ),
    {
        proof {
            use_type_invariant(&*self);
        }
        let mut docs: Vec<OpenDocument> = Vec::new();
        std::mem::swap(&mut docs, &mut self.docs);
        let ghost before = docs@;
        match position(&docs, &uri) {
            Some(i) => {
                proof {
                    lemma_table_remove(before, i as int);
                }
                docs.remove(i);
            },
            None => {
                assert(table_of(before).remove(uri@) =~= table_of(before));
            },
        }
        let doc = OpenDocument { uri, text, version };
        proof {
            lemma_table_push(docs@, doc);
            assert(table_of(before).remove(doc.uri@).insert(doc.uri@, doc@) =~= table_of(
                before,
            ).insert(doc.uri@, doc@));
        }
        docs.push(doc);
        self.docs = docs;
    }

    /// Applies `changes`, in order, to the document of `uri` and gives it
    /// `version`. On an error the table stays as it was.
    pub fn apply_change(&mut self, uri: &str, version: i32, changes: &Vec<ContentChange>) -> (r:
        Result<(), DocumentError>)
        ensures
            match change_outcome(old(self)@, uri@, version as int, changes.deep_view()) {
                Ok(doc) => r is Ok && final(self)@ == old(self)@.insert(uri@, doc),
                Err(e) => r == Err::<(), DocumentError>(e) && final(self)@ == old(self)@,
            },
    {
        proof {
            use_type_invariant(&*self);
        }
        let key: String = uri.to_owned();
        let found: Option<usize> = position(&self.docs, &key);
        match found {
            None => Err(DocumentError::UnknownDocument),
            Some(i) => {
                proof {
                    lemma_table_at(self.docs@, i as int);
                }
                if version <= self.docs[i].version {
                    return Err(DocumentError::StaleVersion);
                }
                match apply_changes(self.docs[i].text.as_str(), changes) {
                    None => Err(DocumentError::InvalidRange),
                    Some(text) => {
                        let mut docs: Vec<OpenDocument> = Vec::new();
                        std::mem::swap(&mut docs, &mut self.docs);
                        let ghost before = docs@;
                        proof {
                            lemma_table_remove(before, i as int);
                        }
                        docs.remove(i);
                        let doc = OpenDocument { uri: key, text, version };
                        proof {
                            lemma_table_push(docs@, doc);
                            assert(table_of(before).remove(doc.uri@).insert(doc.uri@, doc@)
                                =~= table_of(before).insert(doc.uri@, doc@));
                        }
                        docs.push(doc);
                        self.docs = docs;
                        Ok(())
                    },
                }
            },
        }
    }

    /// Closes `uri`. Nothing changes when it is not open.
    pub fn close(&mut self, uri: &str)
        ensures
            final(self)@ == old(self)@.remove(uri@),
    {
        proof {
            use_type_invariant(&*self);
        }
        let key: String = uri.to_owned();
        let mut docs: Vec<OpenDocument> = Vec::new();
        std::mem::swap(&mut docs, &mut self.docs);
        match position(&docs, &key) {
            Some(i) => {
                proof {
                    lemma_table_remove(docs@, i as int);
                }
                docs.remove(i);
            },
            None => {
                assert(table_of(docs@).remove(uri@) =~= table_of(docs@));
            },
        }
        self.docs = docs;
    }

    /// Closes every document.
    pub fn clear(&mut self)
        ensures
            final(self)@ == Map::<Seq<char>, DocumentView>::empty(),
    {
        self.docs = Vec::new();
        assert(self@ =~= Map::<Seq<char>, DocumentView>::empty());
    }

    /// The current text of `uri`, if it is open.
    pub fn get(&self, uri: &str) -> (r: Option<&str>)
        ensures
            match r {
                Some(text) => self@.dom().contains(uri@) && text@ == self@[uri@].text,
                None => !self@.dom().contains(uri@),
            },
    {
        proof {
            use_type_invariant(self);
        }
        let key: String = uri.to_owned();
        match position(&self.docs, &key) {
            Some(i) => {
                proof {
                    lemma_table_at(self.docs@, i as int);
                }
                Some(self.docs[i].text.as_str())
            },
            None => None,
        }
    }

    /// The version of `uri`, if it is open.
    pub fn version(&self, uri: &str) -> (r: Option<i32>)
        ensures
            match r {
                Some(v) => self@.dom().contains(uri@) && v == self@[uri@].version,
                None => !self@.dom().contains(uri@),
            },
    {
        proof {
            use_type_invariant(self);
        }
        let key: String = uri.to_owned();
        match position(&self.docs, &key) {
            Some(i) => {
                proof {
                    lemma_table_at(self.docs@, i as int);
                }
                Some(self.docs[i].version)
            },
            None => None,
        }
    }

    /// Number of open documents.
    pub fn len(&self) -> (n: usize)
        ensures
            n == self@.dom().len(),
            self@.dom().finite(),
    {
        proof {
            use_type_invariant(self);
            lemma_table_size(self.docs@);
        }
        self.docs.len()
    }
}

proof fn lemma_table_size(docs: Seq<OpenDocument>)
    requires
        distinct(docs),
    ensures
        table_of(docs).dom().finite(),
        table_of(docs).dom().len() == docs.len(),
    decreases docs.len(),
{
    if docs.len() == 0 {
        assert(table_of(docs).dom() =~= Set::<Seq<char>>::empty());
    } else {
        let init = docs.drop_last();
        let last = docs.last();
        assert forall|i: int, j: int| 0 <= i < j < init.len() implies init[i].uri@
            != init[j].uri@ by {
            assert(init[i] == docs[i]);
            assert(init[j] == docs[j]);
        }
        assert(!holds(init, last.uri@)) by {
            if holds(init, last.uri@) {
                let i = choose|i: int| 0 <= i < init.len() && #[trigger] init[i].uri@ == last.uri@;
                assert(init[i] == docs[i]);
            }
        }
        lemma_table_size(init);
        lemma_table_push(init, last);
        assert(init.push(last) =~= docs);
    }
}

} // verus!
