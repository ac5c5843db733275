use vstd::prelude::*;

verus! {

/// A transaction id: the 32-byte double-SHA256 hash of a transaction,
/// carried here as plain bytes.
#[derive(Debug, Clone, Copy, PartialEq, Eq)]
pub struct Txid(pub [u8; 32]);

/// Identifies one inscription: the transaction that revealed it and the
/// index of the inscription within that transaction.
#[derive(Debug, Clone, Copy, PartialEq, Eq)]
pub struct InscriptionId {
    pub txid: Txid,
    pub index: u32,
}

/// A transaction output: the transaction that created it and the output's
/// position within that transaction.
#[derive(Debug, Clone, Copy, PartialEq, Eq)]
pub struct OutPoint {
    pub txid: Txid,
    pub vout: u32,
}

/// Locates a satoshi (and with it an inscription) on chain: a transaction
/// output and an offset, in satoshis, within that output.
#[derive(Debug, Clone, Copy, PartialEq, Eq)]
pub struct SatPoint {
    pub outpoint: OutPoint,
    pub offset: u64,
}

/// The payload bound to a satoshi by an on-chain envelope. Only the parts
/// this layer carries through are held: the media type and the body bytes,
/// each absent when the envelope omitted it.
#[derive(Debug, Clone, PartialEq, Eq)]
pub struct Inscription {
    pub content_type: Option<Vec<u8>>,
    pub body: Option<Vec<u8>>,
}

/// The lifecycle action one transaction applies to one inscription.
#[derive(Debug, Clone, PartialEq, Eq)]
pub enum Action {
    /// The inscription is created in this transaction. `cursed`: it violates
    /// the canonical envelope rules. `unbound`: no satoshi backs it.
    /// `vindicated`: a later protocol rule forgives the violation, lifting
    /// the negative-numbering consequence without clearing `cursed` itself.
    /// `parent`: an optional controlling parent inscription.
    New {
        cursed: bool,
        unbound: bool,
        inscription: Inscription,
        vindicated: bool,
        parent: Option<InscriptionId>,
    },
    /// The inscription moves from its old satpoint to a new one without
    /// being created.
    Transfer,
}

/// One inscription lifecycle event within one transaction, as handed to the
/// state-application collaborator. `sequence_number` is the globally unique
/// creation order across the whole index; `inscription_number` is `None`
/// until assigned, and negative once assigned for cursed-but-not-vindicated
/// inscriptions. `new_satpoint` is `None` only when the inscription was sent
/// to an unrecoverable destination (spent to fee).
#[derive(Debug, Clone, PartialEq, Eq)]
pub struct InscriptionOp {
    pub txid: Txid,
    pub action: Action,
    pub sequence_number: u32,
    pub inscription_number: Option<i32>,
    pub inscription_id: InscriptionId,
    pub old_satpoint: SatPoint,
    pub new_satpoint: Option<SatPoint>,
}

} // verus!
