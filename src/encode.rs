use vstd::prelude::*;
use crossterm::Command;
use crate::types::TerminalCell;
use crate::paint::PaintOp;

verus! {

/// Decimal digits of `n`, in ASCII.
pub open spec fn dec(n: nat) -> Seq<u8>
    decreases n,
{
    if n < 10 {
        seq![(48 + n) as u8]
    } else {
        dec(n / 10).push((48 + n % 10) as u8)
    }
}

/// A control sequence: ESC '[' then `body`.
pub open spec fn csi(body: Seq<u8>) -> Seq<u8> {
    seq![27u8, 91u8] + body
}

/// `ESC [ row+1 ; col+1 H`.
pub open spec fn move_to_code(x: nat, y: nat) -> Seq<u8> {
    csi(dec(y + 1) + seq![59u8] + dec(x + 1) + seq![72u8])
}

/// `ESC [ 1 E`: cursor to the start of the next line.
pub open spec fn next_line_code() -> Seq<u8> {
    csi(seq![49u8, 69u8])
}

/// `ESC [ 0 m`: attribute reset.
pub open spec fn reset_code() -> Seq<u8> {
    csi(seq![48u8, 109u8])
}

/// `ESC [ 2 J`: clear the whole screen.
pub open spec fn clear_code() -> Seq<u8> {
    csi(seq![50u8, 74u8])
}

/// `ESC [ 38 ; 5 ; n m`: foreground color n of the 256-color palette.
pub open spec fn fg_code(n: nat) -> Seq<u8> {
    csi(seq![51u8, 56u8, 59u8, 53u8, 59u8] + dec(n) + seq![109u8])
}

/// `ESC [ 48 ; 5 ; n m`: background color n of the 256-color palette.
pub open spec fn bg_code(n: nat) -> Seq<u8> {
    csi(seq![52u8, 56u8, 59u8, 53u8, 59u8] + dec(n) + seq![109u8])
}

/// UTF-8 encoding of a scalar value.
pub open spec fn utf8(v: int) -> Seq<u8> {
    if v < 0x80 {
        seq![v as u8]
    } else if v < 0x800 {
        seq![(0xC0 + v / 64) as u8, (0x80 + v % 64) as u8]
    } else if v < 0x10000 {
        seq![(0xE0 + v / 4096) as u8, (0x80 + (v / 64) % 64) as u8, (0x80 + v % 64) as u8]
    } else {
        seq![
            (0xF0 + v / 262144) as u8,
            (0x80 + (v / 4096) % 64) as u8,
            (0x80 + (v / 64) % 64) as u8,
            (0x80 + v % 64) as u8,
        ]
    }
}

/// Both colors of a cell, then its glyph.
pub open spec fn cell_code(c: TerminalCell) -> Seq<u8> {
    fg_code(c.foreground.0 as nat) + bg_code(c.background.0 as nat) + utf8(c.character as u32 as int)
}

/// The bytes of one op.
pub open spec fn op_code(op: PaintOp) -> Seq<u8> {
    match op {
        PaintOp::MoveTo(x, y) => move_to_code(x as nat, y as nat),
        PaintOp::NextLine => next_line_code(),
        PaintOp::Put(c) => cell_code(c),
        PaintOp::Reset => reset_code(),
    }
}

/// The bytes of a sequence of ops, one after another.
pub open spec fn ops_code(ops: Seq<PaintOp>) -> Seq<u8>
    decreases ops.len(),
{
    if ops.len() == 0 {
        Seq::empty()
    } else {
        ops_code(ops.drop_last()) + op_code(ops.last())
    }
}

/// An op whose cursor coordinates fit the 16-bit positioning command.
pub open spec fn encodable(op: PaintOp) -> bool {
    match op {
        PaintOp::MoveTo(x, y) => x < 65535 && y < 65535,
        _ => true,
    }
}

/// Relies on crossterm's `MoveTo(col, row).write_ansi`, which writes
/// `ESC [ row+1 ; col+1 H`.
#[verifier::external_body]
fn move_to_ansi(x: u16, y: u16) -> (r: Vec<u8>)
    requires
        x < 65535,
        y < 65535,
    ensures
        r@ == move_to_code(x as nat, y as nat),
{
    let mut s = String::new();
    let _ = crossterm::cursor::MoveTo(x, y).write_ansi(&mut s);
    s.into_bytes()
}

/// Relies on crossterm's `MoveToNextLine(1).write_ansi`, which writes `ESC [ 1 E`.
#[verifier::external_body]
fn next_line_ansi() -> (r: Vec<u8>)
    ensures
        r@ == next_line_code(),
{
    let mut s = String::new();
    let _ = crossterm::cursor::MoveToNextLine(1).write_ansi(&mut s);
    s.into_bytes()
}

/// Relies on crossterm's `Clear(ClearType::All).write_ansi`, which writes `ESC [ 2 J`.
#[verifier::external_body]
fn clear_ansi() -> (r: Vec<u8>)
    ensures
        r@ == clear_code(),
{
    let mut s = String::new();
    let _ = crossterm::terminal::Clear(crossterm::terminal::ClearType::All).write_ansi(&mut s);
    s.into_bytes()
}

/// The bytes that clear the screen.
pub fn clear_bytes() -> (r: Vec<u8>)
    ensures
        r@ == clear_code(),
{
    clear_ansi()
}

fn append(out: &mut Vec<u8>, bytes: Vec<u8>)
    ensures
        final(out)@ == old(out)@ + bytes@,
{
    let mut i: usize = 0;
    while i < bytes.len()
        invariant
            i <= bytes@.len(),
            out@ == old(out)@ + bytes@.subrange(0, i as int),
        decreases bytes@.len() - i,
    {
        out.push(bytes[i]);
        i = i + 1;
        assert(bytes@.subrange(0, i as int) =~= bytes@.subrange(0, i - 1).push(bytes@[i - 1]));
    }
    assert(bytes@.subrange(0, bytes@.len() as int) =~= bytes@);
}

/// Appends the decimal digits of `n`.
pub fn push_decimal(out: &mut Vec<u8>, n: u8)
    ensures
        final(out)@ == old(out)@ + dec(n as nat),
{
    if n >= 100 {
        assert(dec(n as nat) =~= seq![(48 + n / 100) as u8, (48 + (n / 10) % 10) as u8, (48 + n % 10) as u8]) by {
            reveal_with_fuel(dec, 3);
        }
        out.push(48 + n / 100);
        out.push(48 + (n / 10) % 10);
        out.push(48 + n % 10);
    } else if n >= 10 {
        assert(dec(n as nat) =~= seq![(48 + n / 10) as u8, (48 + n % 10) as u8]) by {
            reveal_with_fuel(dec, 2);
        }
        out.push(48 + n / 10);
        out.push(48 + n % 10);
    } else {
        out.push(48 + n);
    }
    assert(final(out)@ =~= old(out)@ + dec(n as nat));
}

fn push_color(out: &mut Vec<u8>, ground: u8, n: u8)
    requires
        ground == 51 || ground == 52,
    ensures
        ground == 51 ==> final(out)@ == old(out)@ + fg_code(n as nat),
        ground == 52 ==> final(out)@ == old(out)@ + bg_code(n as nat),
{
    let ghost start = out@;
    out.push(27);
    out.push(91);
    out.push(ground);
    out.push(56);
    out.push(59);
    out.push(53);
    out.push(59);
    push_decimal(out, n);
    out.push(109);
    assert(out@ =~= start + csi(seq![ground, 56u8, 59u8, 53u8, 59u8] + dec(n as nat) + seq![109u8]));
}

/// Appends the UTF-8 encoding of `c`.
pub fn push_char(out: &mut Vec<u8>, c: char)
    ensures
        final(out)@ == old(out)@ + utf8(c as u32 as int),
{
    let v = c as u32;
    if v < 0x80 {
        out.push(v as u8);
    } else if v < 0x800 {
        out.push((0xC0 + v / 64) as u8);
        out.push((0x80 + v % 64) as u8);
    } else if v < 0x10000 {
        out.push((0xE0 + v / 4096) as u8);
        out.push((0x80 + (v / 64) % 64) as u8);
        out.push((0x80 + v % 64) as u8);
    } else {
        out.push((0xF0 + v / 262144) as u8);
        out.push((0x80 + (v / 4096) % 64) as u8);
        out.push((0x80 + (v / 64) % 64) as u8);
        out.push((0x80 + v % 64) as u8);
    }
    assert(final(out)@ =~= old(out)@ + utf8(v as int));
}

/// Appends the bytes of one op.
fn push_op(out: &mut Vec<u8>, op: PaintOp)
    requires
        encodable(op),
    ensures
        final(out)@ == old(out)@ + op_code(op),
{
    match op {
        PaintOp::MoveTo(x, y) => {
            append(out, move_to_ansi(x as u16, y as u16));
        },
        PaintOp::NextLine => {
            append(out, next_line_ansi());
        },
        PaintOp::Put(c) => {
            let ghost start = out@;
            push_color(out, 51, c.foreground.0);
            push_color(out, 52, c.background.0);
            push_char(out, c.character);
            assert(out@ =~= start + cell_code(c));
        },
        PaintOp::Reset => {
            out.push(27);
            out.push(91);
            out.push(48);
            out.push(109);
            assert(final(out)@ =~= old(out)@ + reset_code());
        },
    }
}

/// The bytes of a sequence of ops.
pub fn encode_ops(ops: &Vec<PaintOp>) -> (out: Vec<u8>)
    requires
        forall|i: int| 0 <= i < ops@.len() ==> encodable(#[trigger] ops@[i]),
    ensures
        out@ == ops_code(ops@),
{
    let mut out: Vec<u8> = Vec::new();
    let mut i: usize = 0;
    while i < ops.len()
        invariant
            i <= ops@.len(),
            forall|j: int| 0 <= j < ops@.len() ==> encodable(#[trigger] ops@[j]),
            out@ == ops_code(ops@.subrange(0, i as int)),
        decreases ops@.len() - i,
    {
        push_op(&mut out, ops[i]);
        let ghost prefix = ops@.subrange(0, i + 1);
        assert(prefix.drop_last() =~= ops@.subrange(0, i as int));
        i = i + 1;
    }
    assert(ops@.subrange(0, ops@.len() as int) =~= ops@);
    out
}

} // verus!
