//! What the template provider tells the pool.
use vstd::prelude::*;

verus! {

/// A block template.
#[derive(Debug)]
pub struct NewTemplate {
    pub template_id: u64,
    /// The template is for the block after the next one.
    pub future_template: bool,
    pub version: u32,
    pub coinbase_tx_version: u32,
    /// The bytes that the script of the coinbase's input begins with.
    pub coinbase_prefix: Vec<u8>,
    pub coinbase_tx_input_sequence: u32,
    pub coinbase_tx_value_remaining: u64,
    pub coinbase_tx_outputs_count: u32,
    pub coinbase_tx_outputs: Vec<u8>,
    pub coinbase_tx_locktime: u32,
    pub merkle_path: Vec<[u8; 32]>,
}

/// The content of a [`NewTemplate`].
pub struct NewTemplateView {
    pub template_id: u64,
    pub future_template: bool,
    pub version: u32,
    pub coinbase_tx_version: u32,
    pub coinbase_prefix: Seq<u8>,
    pub coinbase_tx_input_sequence: u32,
    pub coinbase_tx_value_remaining: u64,
    pub coinbase_tx_outputs_count: u32,
    pub coinbase_tx_outputs: Seq<u8>,
    pub coinbase_tx_locktime: u32,
    pub merkle_path: Seq<[u8; 32]>,
}

impl View for NewTemplate {
    type V = NewTemplateView;

    open spec fn view(&self) -> NewTemplateView {
        NewTemplateView {
            template_id: self.template_id,
            future_template: self.future_template,
            version: self.version,
            coinbase_tx_version: self.coinbase_tx_version,
            coinbase_prefix: self.coinbase_prefix@,
            coinbase_tx_input_sequence: self.coinbase_tx_input_sequence,
            coinbase_tx_value_remaining: self.coinbase_tx_value_remaining,
            coinbase_tx_outputs_count: self.coinbase_tx_outputs_count,
            coinbase_tx_outputs: self.coinbase_tx_outputs@,
            coinbase_tx_locktime: self.coinbase_tx_locktime,
            merkle_path: self.merkle_path@,
        }
    }
}

/// The block that the template provider builds on from now on, and the template for it.
#[derive(Clone, Copy, PartialEq, Eq, Debug)]
pub struct NewPrevHash {
    pub template_id: u64,
    pub prev_hash: [u8; 32],
    pub header_timestamp: u32,
    pub n_bits: u32,
    pub target: [u8; 32],
}

/// The content of a template is that of its fields, each by itself.
pub proof fn lemma_template_content(template: NewTemplate)
    ensures
        template@.template_id == template.template_id,
        template@.future_template == template.future_template,
        template@.version == template.version,
        template@.coinbase_tx_version == template.coinbase_tx_version,
        template@.coinbase_prefix == template.coinbase_prefix@,
        template@.coinbase_tx_input_sequence == template.coinbase_tx_input_sequence,
        template@.coinbase_tx_value_remaining == template.coinbase_tx_value_remaining,
        template@.coinbase_tx_outputs_count == template.coinbase_tx_outputs_count,
        template@.coinbase_tx_outputs == template.coinbase_tx_outputs@,
        template@.coinbase_tx_locktime == template.coinbase_tx_locktime,
        template@.merkle_path == template.merkle_path@,
{
}

} // verus!
