//! Embeddings computed locally for a document.
use vstd::prelude::*;

verus! {

/// The insert of one embedding: id, document kind, document id, bytes.
pub const INSERT_QUERY: &'static str = r#"
            INSERT INTO fast_embeds (id, doc_type, doc_id, embedding)
            VALUES (?, ?, ?, ?)
        "#;

/// The query for a page of embeddings, its limit and offset left as
/// parameters.
pub const PAGE_QUERY: &'static str = r#"
            SELECT id, doc_type, doc_id, embedding
            FROM fast_embeds
            LIMIT ? OFFSET ?
        "#;

/// An embedding of a document: its id, the kind and id of the document, and
/// the embedding's bytes.
pub struct FastEmbed {
    pub id: String,
    pub doc_type: String,
    pub doc_id: String,
    pub embedding: Vec<u8>,
}

impl FastEmbed {
    /// An embedding with every field empty.
    pub fn new() -> (res: FastEmbed)
        ensures
            res.id@ == Seq::<char>::empty(),
            res.doc_type@ == Seq::<char>::empty(),
            res.doc_id@ == Seq::<char>::empty(),
            res.embedding@ == Seq::<u8>::empty(),
    {
        FastEmbed {
            id: String::new(),
            doc_type: String::new(),
            doc_id: String::new(),
            embedding: Vec::new(),
        }
    }
}

impl Default for FastEmbed {
    fn default() -> (res: FastEmbed)
        ensures
            res.id@ == Seq::<char>::empty(),
            res.doc_type@ == Seq::<char>::empty(),
            res.doc_id@ == Seq::<char>::empty(),
            res.embedding@ == Seq::<u8>::empty(),
    {
        FastEmbed::new()
    }
}

} // verus!
