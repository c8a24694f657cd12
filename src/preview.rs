//! A short view of the first bytes of a chunk, in hexadecimal and in ASCII.
use vstd::prelude::*;

verus! {

/// Most bytes that a preview shows.
pub const PREVIEW_LEN: usize = 16;

/// Number of bytes of a chunk of `n` bytes that a preview shows.
pub open spec fn shown(n: int) -> int {
    if n < PREVIEW_LEN {
        n
    } else {
        PREVIEW_LEN as int
    }
}

/// The ASCII code of the uppercase hexadecimal digit for `d`, below 16.
pub open spec fn hex_digit(d: u8) -> u8 {
    if d < 10 {
        (0x30 + d) as u8
    } else {
        (0x41 + d - 10) as u8
    }
}

/// `c` as it stands in the ASCII column: printable characters as
/// themselves, any other byte as a dot.
pub open spec fn ascii_shown(c: u8) -> u8 {
    if 31 < c && c < 127 {
        c
    } else {
        0x2Eu8
    }
}

/// The first bytes of `data`, each as two uppercase hexadecimal digits
/// followed by a space.
pub fn hex_preview(data: &[u8]) -> (r: Vec<u8>)
    ensures
        r@.len() == 3 * shown(data@.len() as int),
        forall|i: int|
            0 <= i < shown(data@.len() as int) ==> {
                &&& r@[3 * i] == hex_digit(#[trigger] data@[i] / 16)
                &&& r@[3 * i + 1] == hex_digit(data@[i] % 16)
                &&& r@[3 * i + 2] == 0x20u8
            },
{
    let n = if data.len() < PREVIEW_LEN {
        data.len()
    } else {
        PREVIEW_LEN
    };
    let mut r: Vec<u8> = Vec::new();
    let mut i: usize = 0;
    while i < n
        invariant
            n == shown(data@.len() as int),
            i <= n,
            r@.len() == 3 * i,
            forall|j: int|
                0 <= j < i ==> {
                    &&& r@[3 * j] == hex_digit(#[trigger] data@[j] / 16)
                    &&& r@[3 * j + 1] == hex_digit(data@[j] % 16)
                    &&& r@[3 * j + 2] == 0x20u8
                },
        decreases n - i,
    {
        let c = data[i];
        let hi = c / 16;
        let lo = c % 16;
        r.push(if hi < 10 { 0x30 + hi } else { 0x41 + hi - 10 });
        r.push(if lo < 10 { 0x30 + lo } else { 0x41 + lo - 10 });
        r.push(0x20u8);
        i = i + 1;
    }
    r
}

/// The first bytes of `data` as ASCII, with a dot for each byte that does
/// not print.
pub fn ascii_preview(data: &[u8]) -> (r: Vec<u8>)
    ensures
        r@.len() == shown(data@.len() as int),
        forall|i: int| 0 <= i < r@.len() ==> r@[i] == ascii_shown(#[trigger] data@[i]),
{
    let n = if data.len() < PREVIEW_LEN {
        data.len()
    } else {
        PREVIEW_LEN
    };
    let mut r: Vec<u8> = Vec::new();
    let mut i: usize = 0;
    while i < n
        invariant
            n == shown(data@.len() as int),
            i <= n,
            r@.len() == i,
            forall|j: int| 0 <= j < i ==> r@[j] == ascii_shown(#[trigger] data@[j]),
        decreases n - i,
    {
        let c = data[i];
        r.push(if 31 < c && c < 127 { c } else { 0x2Eu8 });
        i = i + 1;
    }
    r
}

} // verus!
