//! Hashes of texts.

use std::collections::hash_map::DefaultHasher;
use std::hash::Hasher;
use vstd::prelude::*;
use vstd::std_specs::hash::DefaultHasherAdditionalSpecFns;
use vstd::utf8::encode_utf8;

verus! {

/// What a text adds to what is hashed: its bytes, and one byte that no text
/// holds behind them.
pub open spec fn text_writes(text: Seq<char>) -> Seq<Seq<u8>> {
    seq![encode_utf8(text), seq![0xffu8]]
}

/// The hash of a text.
pub open spec fn hash_of_text(text: Seq<char>) -> u64 {
    DefaultHasher::spec_finish(text_writes(text))
}

/// Adds a text to what is hashed.
pub fn write_text(hasher: &mut DefaultHasher, text: &str)
    ensures
        final(hasher)@ == old(hasher)@ + text_writes(text@),
{
    hasher.write(text.as_bytes());
    let mut end: Vec<u8> = Vec::new();
    end.push(0xff);
    hasher.write(end.as_slice());
    assert(end@ =~= seq![0xffu8]);
    assert(hasher@ =~= old(hasher)@ + text_writes(text@));
}

/// The hash of a text.
pub fn text_hash(text: &str) -> (hash: u64)
    ensures
        hash == hash_of_text(text@),
{
    let mut hasher = DefaultHasher::new();
    write_text(&mut hasher, text);
    assert(hasher@ =~= text_writes(text@));
    hasher.finish()
}

} // verus!
