use vstd::prelude::*;

use crate::utils::text::{decimal, push_bytes, push_decimal};

verus! {

/// The private modes switched on the alternate screen, each with whether it
/// is set there: the alternate screen itself, reports of all mouse motion,
/// SGR mouse coordinates, and the visible cursor.
const SEQUENCES: [(u32, bool); 4] = [(1049, true), (1003, true), (1006, true), (25, false)];

/// The modes of [`SEQUENCES`], as a sequence.
pub open spec fn screen_modes() -> Seq<(u32, bool)> {
    seq![(1049u32, true), (1003u32, true), (1006u32, true), (25u32, false)]
}

/// `ESC [ ? mode h` when `set`, `ESC [ ? mode l` otherwise.
pub open spec fn private_mode(mode: u32, set: bool) -> Seq<u8> {
    seq![0x1bu8, 91u8, 63u8] + decimal(mode as nat) + seq![if set { 104u8 } else { 108u8 }]
}

/// The modes from the `k`-th on, each set as it is on the alternate screen
/// when `entering`, and reverted otherwise.
pub open spec fn modes_from(k: int, entering: bool) -> Seq<u8>
    decreases 4 - k,
{
    if k < 0 || k >= 4 {
        seq![]
    } else {
        let (mode, on) = screen_modes()[k];
        private_mode(mode, if entering { on } else { !on }) + modes_from(k + 1, entering)
    }
}

/// What entering the alternate screen writes: the modes, a black
/// background, then two requests to the terminal: the current graphic
/// rendition (to learn whether it takes 24-bit colors) and its name (`TN`).
pub open spec fn enter_sequence() -> Seq<u8> {
    modes_from(0, true) + seq![0x1bu8, 91u8, 52u8, 56u8, 59u8, 50u8, 59u8, 48u8, 59u8, 48u8, 59u8, 48u8, 109u8]
        + seq![0x1bu8, 80u8, 36u8, 113u8, 109u8, 0x1bu8, 92u8] + seq![0x1bu8, 80u8, 43u8, 113u8, 53u8, 52u8, 52u8, 101u8, 0x1bu8, 92u8]
}

/// Appends the modes, set as on the alternate screen when `entering`,
/// reverted otherwise.
fn push_modes(buf: &mut Vec<u8>, entering: bool)
    ensures
        final(buf)@ == old(buf)@ + modes_from(0, entering),
{
    let modes = SEQUENCES;
    assert(modes@ == screen_modes());
    let ghost start = buf@;
    let mut k: usize = 0;
    while k < 4
        invariant
            k <= 4,
            modes@ == screen_modes(),
            buf@ + modes_from(k as int, entering) == start + modes_from(0, entering),
        decreases 4 - k,
    {
        let (mode, on) = modes[k];
        let set = if entering {
            on
        } else {
            !on
        };
        let ghost before = buf@;
        push_bytes(buf, &[0x1bu8, 91u8, 63u8]);
        push_decimal(buf, mode);
        buf.push(if set {
            104u8
        } else {
            108u8
        });
        assert(buf@ == before + private_mode(mode, set));
        assert(buf@ + modes_from(k + 1, entering) =~= before + modes_from(k as int, entering));
        k = k + 1;
    }
    assert(modes_from(4, entering) == Seq::<u8>::empty());
    assert(buf@ =~= start + modes_from(0, entering));
}

/// The bytes that switch the terminal to the alternate screen and ask it
/// about itself.
pub fn alt_screen_enter_sequence() -> (bytes: Vec<u8>)
    ensures
        bytes@ == enter_sequence(),
{
    let mut buf: Vec<u8> = Vec::new();
    push_modes(&mut buf, true);
    push_bytes(&mut buf, &[0x1bu8, 91u8, 52u8, 56u8, 59u8, 50u8, 59u8, 48u8, 59u8, 48u8, 59u8, 48u8, 109u8]);
    push_bytes(&mut buf, &[0x1bu8, 80u8, 36u8, 113u8, 109u8, 0x1bu8, 92u8]);
    push_bytes(&mut buf, &[0x1bu8, 80u8, 43u8, 113u8, 53u8, 52u8, 52u8, 101u8, 0x1bu8, 92u8]);
    assert(buf@ =~= enter_sequence());
    buf
}

/// The bytes that switch the terminal back from the alternate screen.
pub fn alt_screen_quit_sequence() -> (bytes: Vec<u8>)
    ensures
        bytes@ == modes_from(0, false),
{
    let mut buf: Vec<u8> = Vec::new();
    push_modes(&mut buf, false);
    assert(buf@ =~= modes_from(0, false));
    buf
}

} // verus!
