//! Embeddings of scraped listings.
use vstd::prelude::*;

verus! {

/// The insert of one listing embedding: id, listing id, bytes.
pub const INSERT_QUERY: &'static str = r#"
            INSERT INTO scrape_embeddings (id, scrape_id, embedding)
            VALUES (?, ?, ?)
        "#;

/// The query for a page of listing embeddings, its limit and offset left as
/// parameters. It reads the `fast_embeds` table.
pub const PAGE_QUERY: &'static str = r#"
            SELECT id, doc_type, doc_id, embedding
            FROM fast_embeds
            LIMIT ? OFFSET ?
        "#;

/// An embedding of a listing: its id, the listing's id and the embedding's
/// bytes.
pub struct ScrapeEmbedding {
    pub id: String,
    pub scrape_id: String,
    pub embedding: Vec<u8>,
}

impl ScrapeEmbedding {
    /// An embedding with every field empty.
    pub fn new() -> (res: ScrapeEmbedding)
        ensures
            res.id@ == Seq::<char>::empty(),
            res.scrape_id@ == Seq::<char>::empty(),
            res.embedding@ == Seq::<u8>::empty(),
    {
        ScrapeEmbedding { id: String::new(), scrape_id: String::new(), embedding: Vec::new() }
    }
}

impl Default for ScrapeEmbedding {
    fn default() -> (res: ScrapeEmbedding)
        ensures
            res.id@ == Seq::<char>::empty(),
            res.scrape_id@ == Seq::<char>::empty(),
            res.embedding@ == Seq::<u8>::empty(),
    {
        ScrapeEmbedding::new()
    }
}

} // verus!
