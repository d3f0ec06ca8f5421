use vstd::prelude::*;
use crate::ident::{decimal, decimal_string};

verus! {

/// The view of an optional string.
pub open spec fn opt_str(o: Option<String>) -> Option<Seq<char>> {
    match o {
        Some(s) => Some(s@),
        None => None,
    }
}

/// The view of optional bytes.
pub open spec fn opt_bytes(o: Option<Vec<u8>>) -> Option<Seq<u8>> {
    match o {
        Some(v) => Some(v@),
        None => None,
    }
}

/// Display metadata of one record.
#[derive(Debug, Clone)]
pub struct TokenMetadata {
    pub title: Option<String>,
    pub description: Option<String>,
    pub media: Option<String>,
    pub media_hash: Option<Vec<u8>>,
    pub copies: Option<u64>,
    pub issued_at: Option<String>,
    pub expires_at: Option<String>,
    pub starts_at: Option<String>,
    pub updated_at: Option<String>,
    pub extra: Option<String>,
    pub reference: Option<String>,
    pub reference_hash: Option<Vec<u8>>,
}

/// The mathematical content of a `TokenMetadata`.
pub struct MetadataView {
    pub title: Option<Seq<char>>,
    pub description: Option<Seq<char>>,
    pub media: Option<Seq<char>>,
    pub media_hash: Option<Seq<u8>>,
    pub copies: Option<u64>,
    pub issued_at: Option<Seq<char>>,
    pub expires_at: Option<Seq<char>>,
    pub starts_at: Option<Seq<char>>,
    pub updated_at: Option<Seq<char>>,
    pub extra: Option<Seq<char>>,
    pub reference: Option<Seq<char>>,
    pub reference_hash: Option<Seq<u8>>,
}

impl View for TokenMetadata {
    type V = MetadataView;

    open spec fn view(&self) -> MetadataView {
        MetadataView {
            title: opt_str(self.title),
            description: opt_str(self.description),
            media: opt_str(self.media),
            media_hash: opt_bytes(self.media_hash),
            copies: self.copies,
            issued_at: opt_str(self.issued_at),
            expires_at: opt_str(self.expires_at),
            starts_at: opt_str(self.starts_at),
            updated_at: opt_str(self.updated_at),
            extra: opt_str(self.extra),
            reference: opt_str(self.reference),
            reference_hash: opt_bytes(self.reference_hash),
        }
    }
}

/// The title of the record with identifier `id`.
pub open spec fn title_of(id: Seq<char>) -> Seq<char> {
    "Feem NFT #"@ + id
}

/// The artwork URI of the record with identifier `id`.
pub open spec fn media_of(id: Seq<char>, base_uri: Seq<char>) -> Seq<char> {
    base_uri + id + ".png"@
}

/// The fixed description of every record.
pub open spec fn description_text() -> Seq<char> {
    "My FIRST NFT"@
}

/// The metadata synthesized for identifier `id` under `base_uri`, issued
/// at time `issued_at`: a title, a description, an artwork URI, a single
/// copy and the issuance time; nothing else.
pub open spec fn synthesized(id: Seq<char>, base_uri: Seq<char>, issued_at: u64) -> MetadataView {
    MetadataView {
        title: Some(title_of(id)),
        description: Some(description_text()),
        media: Some(media_of(id, base_uri)),
        media_hash: None,
        copies: Some(1),
        issued_at: Some(decimal(issued_at as nat)),
        expires_at: None,
        starts_at: None,
        updated_at: None,
        extra: None,
        reference: None,
        reference_hash: None,
    }
}

/// Derives the display metadata of a record from its identifier, the
/// registry's base URI and the issuance time.
pub fn generate_metadata(token_id: &str, base_uri: &str, issued_at: u64) -> (m: TokenMetadata)
    ensures
        m@ == synthesized(token_id@, base_uri@, issued_at),
{
    let title = String::from_str("Feem NFT #").concat(token_id);
    let media = String::from_str(base_uri).concat(token_id).concat(".png");
    TokenMetadata {
        title: Some(title),
        description: Some(String::from_str("My FIRST NFT")),
        media: Some(media),
        media_hash: None,
        copies: Some(1u64),
        issued_at: Some(decimal_string(issued_at)),
        expires_at: None,
        starts_at: None,
        updated_at: None,
        extra: None,
        reference: None,
        reference_hash: None,
    }
}

/// Two syntheses from equal inputs are equal, and the title and artwork URI
/// depend on the identifier and the base URI alone, whatever the issuance
/// time.
pub proof fn lemma_synthesis_deterministic(
    id1: Seq<char>,
    id2: Seq<char>,
    base_uri: Seq<char>,
    t1: u64,
    t2: u64,
)
    ensures
        id1 == id2 ==> synthesized(id1, base_uri, t1) == synthesized(id2, base_uri, t1),
        synthesized(id1, base_uri, t1).title == synthesized(id1, base_uri, t2).title,
        synthesized(id1, base_uri, t1).media == synthesized(id1, base_uri, t2).media,
        synthesized(id1, base_uri, t1).title == Some(title_of(id1)),
        synthesized(id1, base_uri, t1).media == Some(media_of(id1, base_uri)),
{
}

} // verus!
