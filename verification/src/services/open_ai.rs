//! Preparing text for the embedding model: the tokenizer side of the
//! OpenAI client. The HTTP client itself lives with the application.
use vstd::prelude::*;

verus! {

/// The most tokens the embedding model accepts in one input.
pub const MAX_INPUT_TOKENS: usize = 8192;

/// The cl100k_base token ranks of `input`, special tokens encoded as such;
/// nothing when the encoder's pattern matcher gives up on the input (it
/// stops after a fixed number of backtracking steps, so this too depends on
/// the input alone).
pub uninterp spec fn cl100k_tokens(input: Seq<char>) -> Option<Seq<u32>>;

/// Calls `tiktoken_rs::cl100k_base_singleton()` and `CoreBPE::encode` on
/// `input`, with every special token of the encoding allowed (what
/// `encode_with_special_tokens` does, without its unwrap). The contract
/// names the result (`cl100k_tokens`): `None` is the encoder's error, which
/// it returns when its pattern matcher fails on a piece of the input. The
/// other unwrap inside `encode`, on the search for special tokens, acts on a
/// pattern made of escaped literal tokens, which `fancy_regex` hands whole
/// to its plain engine, whose search always succeeds.
#[verifier::external_body]
fn encode_cl100k(input: &str) -> (tokens: Option<Vec<u32>>)
    ensures
        tokens.deep_view() == cl100k_tokens(input@),
{
    let bpe = tiktoken_rs::cl100k_base_singleton();
    match bpe.encode(input, &bpe.special_tokens()) {
        Ok((tokens, _)) => Some(tokens),
        Err(_) => None,
    }
}

/// Why a text cannot be sent to the embedding model.
#[derive(Debug, Clone, Copy, PartialEq, Eq, Structural)]
pub enum TokenizeError {
    /// The text has more than `MAX_INPUT_TOKENS` tokens.
    InputTooLong,
    /// The encoder could not split the text into tokens.
    EncodingFailed,
}

/// The message of each error.
pub open spec fn tokenize_error_text(e: TokenizeError) -> Seq<char> {
    match e {
        TokenizeError::InputTooLong => "Input too long"@,
        TokenizeError::EncodingFailed => "Failed to tokenize input"@,
    }
}

impl TokenizeError {
    /// The message that goes with the error.
    pub fn message(&self) -> (res: &'static str)
        ensures
            res@ == tokenize_error_text(*self),
    {
        match self {
            TokenizeError::InputTooLong => "Input too long",
            TokenizeError::EncodingFailed => "Failed to tokenize input",
        }
    }
}

/// The tokenizing side of the OpenAI client, using the cl100k_base
/// encoding of `text-embedding-ada-002`.
pub struct OpenAI {}

impl OpenAI {
    /// The tokenizer for the embedding model.
    pub fn new() -> (res: OpenAI) {
        OpenAI {  }
    }

    /// The tokens of `input` for the embedding model; `InputTooLong` when
    /// there are more than `MAX_INPUT_TOKENS` of them, and `EncodingFailed`
    /// when the encoder cannot split the text.
    pub fn tokenize_string(&self, input: &str) -> (res: Result<Vec<u32>, TokenizeError>)
        ensures
            match cl100k_tokens(input@) {
                None => res == Err::<Vec<u32>, _>(TokenizeError::EncodingFailed),
                Some(t) => if t.len() <= MAX_INPUT_TOKENS {
                    res matches Ok(tokens) && tokens@ == t
                } else {
                    res == Err::<Vec<u32>, _>(TokenizeError::InputTooLong)
                },
            },
    {
        match encode_cl100k(input) {
            None => Err(TokenizeError::EncodingFailed),
            Some(tokens) => {
                if tokens.len() > MAX_INPUT_TOKENS {
                    return Err(TokenizeError::InputTooLong);
                }
                Ok(tokens)
            },
        }
    }
}

impl Default for OpenAI {
    fn default() -> (res: OpenAI) {
        OpenAI::new()
    }
}

} // verus!
