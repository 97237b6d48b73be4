use vstd::prelude::*;

verus! {

/// The fields of the index schema, resolved once instead of looked up by name.
#[derive(Clone, Copy, Debug, PartialEq, Eq, Structural)]
pub enum Field {
    Path,
    Title,
    Body,
    Mtime,
    Section,
}

impl Field {
    pub open spec fn spec_name(self) -> Seq<char> {
        match self {
            Field::Path => "path"@,
            Field::Title => "title"@,
            Field::Body => "body"@,
            Field::Mtime => "mtime"@,
            Field::Section => "section"@,
        }
    }

    /// The name under which the field is registered in the index schema.
    pub fn name(&self) -> (r: &'static str)
        ensures
            r@ == self.spec_name(),
    {
        match self {
            Field::Path => "path",
            Field::Title => "title",
            Field::Body => "body",
            Field::Mtime => "mtime",
            Field::Section => "section",
        }
    }

    /// Whether the field's value is kept in the index and handed back by queries.
    pub fn is_stored(&self) -> (r: bool)
        ensures
            r == !(*self == Field::Mtime),
    {
        match self {
            Field::Mtime => false,
            _ => true,
        }
    }

    /// Whether the field is split into words (the path is one exact term).
    pub fn is_tokenized(&self) -> (r: bool)
        ensures
            r == !(*self == Field::Path),
    {
        match self {
            Field::Path => false,
            _ => true,
        }
    }
}

/// One value of one field of an index document.
#[derive(Debug)]
pub struct FieldValue {
    pub field: Field,
    pub text: String,
}

/// `fields` is the index document of `n`: its path, then its body if it has one.
pub open spec fn is_document_of(n: Note, fields: Seq<FieldValue>) -> bool {
    &&& fields.len() == if n.body is Some {
        2int
    } else {
        1int
    }
    &&& fields[0].field == Field::Path
    &&& fields[0].text@ == n.path@
    &&& n.body is Some ==> fields[1].field == Field::Body && fields[1].text@ == n.body.unwrap()@
}

/// The most documents that one query hands back.
pub const RESULT_LIMIT: usize = 10;

/// The fields of the index schema, in the order in which they are registered.
pub fn schema_fields() -> (r: Vec<Field>)
    ensures
        r@ == seq![Field::Path, Field::Title, Field::Body, Field::Mtime, Field::Section],
{
    let mut r: Vec<Field> = Vec::new();
    r.push(Field::Path);
    r.push(Field::Title);
    r.push(Field::Body);
    r.push(Field::Mtime);
    r.push(Field::Section);
    assert(r@ =~= seq![Field::Path, Field::Title, Field::Body, Field::Mtime, Field::Section]);
    r
}

/// A document of the index under construction: its key and its body, once given.
#[derive(Debug)]
pub struct Note {
    pub path: String,
    pub body: Option<String>,
}

impl Note {
    /// A note for `path` without a body.
    pub fn new(path: &str) -> (r: Note)
        ensures
            r.path@ == path@,
            r.body is None,
    {
        Note { path: path.to_owned(), body: None }
    }

    /// Sets the body text of the note.
    pub fn body(&mut self, content: &str)
        ensures
            final(self).path == old(self).path,
            final(self).body matches Some(b) && b@ == content@,
    {
        self.body = Some(content.to_owned());
    }

    /// The field values that make up the index document: the path, then the body.
    pub fn document(self) -> (r: Vec<FieldValue>)
        ensures
            is_document_of(self, r@),
    {
        let mut r: Vec<FieldValue> = Vec::new();
        r.push(FieldValue { field: Field::Path, text: self.path });
        match self.body {
            Some(b) => {
                r.push(FieldValue { field: Field::Body, text: b });
            },
            None => {},
        }
        r
    }
}

/// A mutation of the index, keyed by document path.
#[derive(Debug)]
pub enum IndexOperation {
    /// Replace every document with the note's path by the note.
    Upsert(Note),
    /// Remove every document with this path; nothing happens if there is none.
    Delete(String),
}

impl IndexOperation {
    pub open spec fn key(self) -> Seq<char> {
        match self {
            IndexOperation::Upsert(n) => n.path@,
            IndexOperation::Delete(p) => p@,
        }
    }
}

/// A primitive operation of the index writer.
#[derive(Debug)]
pub enum WriterOp {
    /// Delete every document whose `field` holds exactly `text`.
    DeleteTerm { field: Field, text: String },
    /// Add a document made of these field values.
    AddDocument(Vec<FieldValue>),
}

/// The writer operations for one index operation. An upsert is a delete of the
/// path's term followed by the add, so that the batch never holds two
/// documents for one path.
pub fn lower_operation(op: IndexOperation) -> (r: Vec<WriterOp>)
    ensures
        match op {
            IndexOperation::Upsert(n) => {
                &&& r@.len() == 2
                &&& (r@[0] matches WriterOp::DeleteTerm { field, text } && field == Field::Path
                    && text@ == n.path@)
                &&& (r@[1] matches WriterOp::AddDocument(fields) && is_document_of(n, fields@))
            },
            IndexOperation::Delete(p) => {
                &&& r@.len() == 1
                &&& (r@[0] matches WriterOp::DeleteTerm { field, text } && field == Field::Path
                    && text@ == p@)
            },
        },
{
    let mut r: Vec<WriterOp> = Vec::new();
    match op {
        IndexOperation::Upsert(n) => {
            r.push(WriterOp::DeleteTerm { field: Field::Path, text: n.path.clone() });
            r.push(WriterOp::AddDocument(n.document()));
        },
        IndexOperation::Delete(p) => {
            r.push(WriterOp::DeleteTerm { field: Field::Path, text: p });
        },
    }
    r
}

/// The documents of `docs` whose path is not `p`, in their order.
pub open spec fn remove_key(docs: Seq<Note>, p: Seq<char>) -> Seq<Note>
    decreases docs.len(),
{
    if docs.len() == 0 {
        docs
    } else {
        let rest = remove_key(docs.drop_last(), p);
        if docs.last().path@ == p {
            rest
        } else {
            rest.push(docs.last())
        }
    }
}

/// The documents of `docs` whose path is `p`, in their order.
pub open spec fn docs_at(docs: Seq<Note>, p: Seq<char>) -> Seq<Note>
    decreases docs.len(),
{
    if docs.len() == 0 {
        docs
    } else {
        let rest = docs_at(docs.drop_last(), p);
        if docs.last().path@ == p {
            rest.push(docs.last())
        } else {
            rest
        }
    }
}

/// The live documents after one operation: an upsert deletes, then adds.
pub open spec fn apply_op(docs: Seq<Note>, op: IndexOperation) -> Seq<Note> {
    match op {
        IndexOperation::Upsert(n) => remove_key(docs, n.path@).push(n),
        IndexOperation::Delete(p) => remove_key(docs, p@),
    }
}

/// The live documents after a batch, applied in order.
pub open spec fn apply_ops(docs: Seq<Note>, ops: Seq<IndexOperation>) -> Seq<Note>
    decreases ops.len(),
{
    if ops.len() == 0 {
        docs
    } else {
        apply_op(apply_ops(docs, ops.drop_last()), ops.last())
    }
}

/// The last operation of the batch on path `p`, if any.
pub open spec fn last_op_at(ops: Seq<IndexOperation>, p: Seq<char>) -> Option<IndexOperation>
    decreases ops.len(),
{
    if ops.len() == 0 {
        None
    } else if ops.last().key() == p {
        Some(ops.last())
    } else {
        last_op_at(ops.drop_last(), p)
    }
}

/// No two live documents share a path.
pub open spec fn keys_unique(docs: Seq<Note>) -> bool {
    forall|i: int, j: int|
        0 <= i < j < docs.len() ==> (#[trigger] docs[i]).path@ != (#[trigger] docs[j]).path@
}

pub proof fn lemma_docs_at_push(docs: Seq<Note>, n: Note, p: Seq<char>)
    ensures
        docs_at(docs.push(n), p) == if n.path@ == p {
            docs_at(docs, p).push(n)
        } else {
            docs_at(docs, p)
        },
{
    assert(docs.push(n).drop_last() =~= docs);
}

pub proof fn lemma_docs_at_remove_key(docs: Seq<Note>, q: Seq<char>, p: Seq<char>)
    ensures
        docs_at(remove_key(docs, q), p) == if q == p {
            Seq::<Note>::empty()
        } else {
            docs_at(docs, p)
        },
    decreases docs.len(),
{
    if docs.len() == 0 {
    } else {
        let init = docs.drop_last();
        lemma_docs_at_remove_key(init, q, p);
        if docs.last().path@ != q {
            lemma_docs_at_push(remove_key(init, q), docs.last(), p);
        }
    }
}

/// The documents under one path after a batch depend only on the batch's last
/// operation on that path.
pub proof fn lemma_docs_at_apply_ops(docs: Seq<Note>, ops: Seq<IndexOperation>, p: Seq<char>)
    ensures
        docs_at(apply_ops(docs, ops), p) == match last_op_at(ops, p) {
            None => docs_at(docs, p),
            Some(IndexOperation::Upsert(n)) => seq![n],
            Some(IndexOperation::Delete(_)) => Seq::<Note>::empty(),
        },
    decreases ops.len(),
{
    if ops.len() == 0 {
    } else {
        let before = apply_ops(docs, ops.drop_last());
        lemma_docs_at_apply_ops(docs, ops.drop_last(), p);
        match ops.last() {
            IndexOperation::Upsert(n) => {
                lemma_docs_at_remove_key(before, n.path@, p);
                lemma_docs_at_push(remove_key(before, n.path@), n, p);
                if n.path@ == p {
                    assert(Seq::<Note>::empty().push(n) =~= seq![n]);
                }
            },
            IndexOperation::Delete(q) => {
                lemma_docs_at_remove_key(before, q@, p);
            },
        }
    }
}

/// A document that is live after `remove_key` was live before it, under another path.
pub proof fn lemma_remove_key_members(docs: Seq<Note>, p: Seq<char>)
    ensures
        forall|i: int|
            0 <= i < remove_key(docs, p).len() ==> (#[trigger] remove_key(docs, p)[i]).path@ != p
                && docs.contains(remove_key(docs, p)[i]),
    decreases docs.len(),
{
    if docs.len() > 0 {
        let init = docs.drop_last();
        lemma_remove_key_members(init, p);
        assert forall|i: int|
            0 <= i < remove_key(docs, p).len() implies (#[trigger] remove_key(docs, p)[i]).path@
            != p && docs.contains(remove_key(docs, p)[i]) by {
            if i < remove_key(init, p).len() {
                let k = choose|k: int| 0 <= k < init.len() && init[k] == remove_key(init, p)[i];
                assert(docs[k] == init[k]);
            } else {
                assert(docs[docs.len() - 1] == docs.last());
            }
        }
    }
}

/// Removing a path keeps the other paths distinct.
pub proof fn lemma_remove_key_unique(docs: Seq<Note>, p: Seq<char>)
    requires
        keys_unique(docs),
    ensures
        keys_unique(remove_key(docs, p)),
    decreases docs.len(),
{
    if docs.len() > 0 {
        let init = docs.drop_last();
        assert(keys_unique(init));
        lemma_remove_key_unique(init, p);
        lemma_remove_key_members(init, p);
        let r = remove_key(init, p);
        if docs.last().path@ != p {
            assert forall|i: int, j: int|
                0 <= i < j < r.push(docs.last()).len() implies (#[trigger] r.push(
                docs.last(),
            )[i]).path@ != (#[trigger] r.push(docs.last())[j]).path@ by {
                if j == r.len() {
                    let k = choose|k: int| 0 <= k < init.len() && init[k] == r[i];
                    assert(docs[k] == init[k]);
                    assert(docs[docs.len() - 1] == docs.last());
                }
            }
        }
    }
}

/// Every batch keeps at most one live document per path.
pub proof fn lemma_apply_ops_unique(docs: Seq<Note>, ops: Seq<IndexOperation>)
    requires
        keys_unique(docs),
    ensures
        keys_unique(apply_ops(docs, ops)),
    decreases ops.len(),
{
    if ops.len() > 0 {
        let before = apply_ops(docs, ops.drop_last());
        lemma_apply_ops_unique(docs, ops.drop_last());
        match ops.last() {
            IndexOperation::Upsert(n) => {
                let r = remove_key(before, n.path@);
                lemma_remove_key_unique(before, n.path@);
                lemma_remove_key_members(before, n.path@);
                assert forall|i: int, j: int|
                    0 <= i < j < r.push(n).len() implies (#[trigger] r.push(n)[i]).path@ != (
                    #[trigger] r.push(n)[j]).path@ by {
                    if j == r.len() {
                        assert(r[i].path@ != n.path@);
                    }
                }
            },
            IndexOperation::Delete(q) => {
                lemma_remove_key_unique(before, q@);
            },
        }
    }
}

/// Moves the documents whose path is not `p` back into `docs`, in order.
fn remove_path(docs: &mut Vec<Note>, p: &String)
    ensures
        final(docs)@ == remove_key(old(docs)@, p@),
{
    let ghost orig = docs@;
    let mut stack: Vec<Note> = Vec::new();
    while docs.len() > 0
        invariant
            docs@.len() + stack@.len() == orig.len(),
            docs@ == orig.subrange(0, docs@.len() as int),
            forall|j: int|
                0 <= j < stack@.len() ==> #[trigger] stack@[j] == orig[orig.len() - 1 - j],
        decreases docs@.len(),
    {
        let n = docs.pop().unwrap();
        stack.push(n);
    }
    assert(orig.subrange(0, 0) =~= Seq::<Note>::empty());
    while stack.len() > 0
        invariant
            stack@.len() <= orig.len(),
            forall|j: int|
                0 <= j < stack@.len() ==> #[trigger] stack@[j] == orig[orig.len() - 1 - j],
            docs@ == remove_key(orig.subrange(0, orig.len() - stack@.len()), p@),
        decreases stack@.len(),
    {
        let ghost k = orig.len() - stack@.len();
        let n = stack.pop().unwrap();
        assert(orig.subrange(0, k + 1).drop_last() =~= orig.subrange(0, k));
        assert(orig.subrange(0, k + 1).last() == orig[k]);
        if n.path != *p {
            docs.push(n);
        }
    }
    assert(orig.subrange(0, orig.len() as int) =~= orig);
}

/// Applies one operation to the live documents.
pub fn apply_operation(docs: &mut Vec<Note>, op: IndexOperation)
    ensures
        final(docs)@ == apply_op(old(docs)@, op),
{
    match op {
        IndexOperation::Upsert(n) => {
            remove_path(docs, &n.path);
            docs.push(n);
        },
        IndexOperation::Delete(p) => {
            remove_path(docs, &p);
        },
    }
}

/// Applies a batch to the live documents, in order: the reference semantics of
/// a batch commit.
pub fn apply_batch(docs: &mut Vec<Note>, ops: Vec<IndexOperation>)
    ensures
        final(docs)@ == apply_ops(old(docs)@, ops@),
{
    let ghost all = ops@;
    let mut ops = ops;
    let mut stack: Vec<IndexOperation> = Vec::new();
    while ops.len() > 0
        invariant
            ops@.len() + stack@.len() == all.len(),
            ops@ == all.subrange(0, ops@.len() as int),
            forall|j: int| 0 <= j < stack@.len() ==> #[trigger] stack@[j] == all[all.len() - 1 - j],
        decreases ops@.len(),
    {
        let op = ops.pop().unwrap();
        stack.push(op);
    }
    assert(all.subrange(0, 0) =~= Seq::<IndexOperation>::empty());
    while stack.len() > 0
        invariant
            stack@.len() <= all.len(),
            forall|j: int| 0 <= j < stack@.len() ==> #[trigger] stack@[j] == all[all.len() - 1 - j],
            docs@ == apply_ops(old(docs)@, all.subrange(0, all.len() - stack@.len())),
        decreases stack@.len(),
    {
        let ghost k = all.len() - stack@.len();
        let op = stack.pop().unwrap();
        assert(all.subrange(0, k + 1).drop_last() =~= all.subrange(0, k));
        assert(all.subrange(0, k + 1).last() == all[k]);
        apply_operation(docs, op);
    }
    assert(all.subrange(0, all.len() as int) =~= all);
}

} // verus!
