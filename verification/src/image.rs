//! The image loader: a program image is one big-endian origin word followed
//! by big-endian program words, copied verbatim into memory at consecutive
//! addresses starting at the origin.
use vstd::prelude::*;

use crate::bits::wadd;
use crate::state::Memory;

verus! {

/// The 16-bit word two big-endian bytes form.
pub open spec fn be_word(hi: u8, lo: u8) -> u16 {
    ((hi as u16) << 8) | (lo as u16)
}

/// The load origin of an image: its first two bytes.
pub open spec fn image_origin(bytes: Seq<u8>) -> u16 {
    be_word(bytes[0], bytes[1])
}

/// The program words of an image: the byte pairs after the origin word; a
/// trailing odd byte carries no word.
pub open spec fn image_words(bytes: Seq<u8>) -> Seq<u16> {
    Seq::new(
        (((bytes.len() - 2) / 2) as nat),
        |i: int| be_word(bytes[2 + 2 * i], bytes[3 + 2 * i]),
    )
}

/// The memory after storing `ws` word by word from address `a` on, the
/// address wrapping at the top of memory; later words win overlaps.
pub open spec fn store_words(m: Seq<u16>, a: u16, ws: Seq<u16>) -> Seq<u16>
    decreases ws.len(),
{
    if ws.len() == 0 {
        m
    } else {
        store_words(m.update(a as int, ws[0]), wadd(a, 1), ws.drop_first())
    }
}

/// Why an image fails to load.
#[derive(Clone, Copy, PartialEq, Eq, Structural, Debug)]
pub enum ImageError {
    /// The image ends before its origin word: nothing says where it loads.
    MissingOrigin,
}

/// Loads one image into memory: the origin word first, then every complete
/// big-endian word at consecutive addresses from the origin on. An image
/// shorter than its origin word is rejected and memory is untouched;
/// truncated trailing data ends loading without error; overlapping loads
/// silently overwrite.
pub fn load_image(mem: &mut Memory, bytes: &Vec<u8>) -> (r: Result<(), ImageError>)
    requires
        old(mem).wf(),
    ensures
        final(mem).wf(),
        r is Err <==> bytes@.len() < 2,
        bytes@.len() < 2 ==> final(mem)@ == old(mem)@,
        bytes@.len() >= 2 ==> final(mem)@ == store_words(
            old(mem)@,
            image_origin(bytes@),
            image_words(bytes@),
        ),
{
    if bytes.len() < 2 {
        return Err(ImageError::MissingOrigin);
    }
    let origin: u16 = ((bytes[0] as u16) << 8) | (bytes[1] as u16);
    let n_words: usize = (bytes.len() - 2) / 2;
    let ghost ws = image_words(bytes@);

    let mut addr: u16 = origin;
    let mut i: usize = 0;
    proof {
        assert(ws.skip(0) =~= ws);
        assert(2 * n_words + 2 <= bytes@.len());
    }
    while i < n_words
        invariant
            mem.wf(),
            bytes@.len() >= 2,
            2 * n_words + 2 <= bytes@.len() <= usize::MAX,
            i <= n_words,
            ws == image_words(bytes@),
            ws.len() == n_words,
            store_words(mem@, addr, ws.skip(i as int)) == store_words(old(mem)@, origin, ws),
        decreases n_words - i,
    {
        let hi = bytes[2 + 2 * i];
        let lo = bytes[3 + 2 * i];
        let w: u16 = ((hi as u16) << 8) | (lo as u16);
        proof {
            assert(ws.skip(i as int)[0] == w);
            assert(ws.skip(i as int).drop_first() =~= ws.skip(i as int + 1));
        }
        mem.write(addr, w);
        addr = addr.wrapping_add(1);
        i = i + 1;
    }
    proof {
        assert(ws.skip(n_words as int) =~= Seq::<u16>::empty());
    }
    Ok(())
}

} // verus!
