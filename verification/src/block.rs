//! Extraction of the commands that a block carries, and of the number that a header carries.
use crate::chain_data::v4::spec_signature;
use crate::chain_data::{
    spec_call, spec_unchecked_extrinsic, Call, CallModel, ExtrinsicModel, Header, OpaqueExtrinsic,
    SignedBlock, UncheckedExtrinsic,
};
use crate::command::{
    command_bytes, lemma_command_bytes_parse, lemma_parsed_command_on_canvas, spec_parse_command,
    Command,
};
use crate::chain_data::lemma_call_bytes_decode;
use vstd::prelude::*;

verus! {

/// The command that an extrinsic carries: it must decode as an extrinsic whose call is a remark,
/// and the remark must parse as a command. Bytes left after the call are ignored.
pub open spec fn extrinsic_command(bytes: Seq<u8>) -> Option<Command> {
    match spec_unchecked_extrinsic(bytes) {
        Ok((ExtrinsicModel::V4 { call: CallModel::SystemRemark(remark), .. }, _)) => spec_parse_command(remark),
        _ => None,
    }
}

/// The commands of a sequence of extrinsics, in order, skipping those that carry none.
pub open spec fn block_commands(extrinsics: Seq<Seq<u8>>) -> Seq<Command>
    decreases extrinsics.len(),
{
    if extrinsics.len() == 0 {
        Seq::empty()
    } else {
        let earlier = block_commands(extrinsics.drop_last());
        match extrinsic_command(extrinsics.last()) {
            Some(c) => earlier.push(c),
            None => earlier,
        }
    }
}

/// The blobs of a list of extrinsics.
pub open spec fn extrinsic_bytes(extrinsics: Seq<OpaqueExtrinsic>) -> Seq<Seq<u8>> {
    extrinsics.map_values(|e: OpaqueExtrinsic| e@)
}

/// Extracts the command that an extrinsic blob carries, if any.
pub fn extrinsic_to_command(bytes: &[u8]) -> (r: Option<Command>)
    ensures
        r == extrinsic_command(bytes@),
{
    match UncheckedExtrinsic::<Call>::decode(bytes) {
        Ok((UncheckedExtrinsic::V4 { call: Call::SystemRemark(remark), .. }, _)) => Command::parse(
            remark.as_slice(),
        ),
        _ => None,
    }
}

/// Extracts all the commands of a block, in the order of its extrinsics.
pub fn parse_block(body: SignedBlock) -> (cmds: Vec<Command>)
    ensures
        cmds@ == block_commands(extrinsic_bytes(body.block.extrinsics@)),
{
    let extrinsics = &body.block.extrinsics;
    let ghost all = extrinsic_bytes(extrinsics@);
    let mut cmds: Vec<Command> = Vec::new();
    let mut i: usize = 0;
    while i < extrinsics.len()
        invariant
            i <= extrinsics@.len(),
            all == extrinsic_bytes(extrinsics@),
            cmds@ == block_commands(all.take(i as int)),
        decreases extrinsics@.len() - i,
    {
        let c = extrinsic_to_command(extrinsics[i].0.as_slice());
        assert(all.take(i + 1).drop_last() =~= all.take(i as int));
        assert(all.take(i + 1).last() == extrinsics@[i as int]@);
        match c {
            Some(cmd) => cmds.push(cmd),
            None => {},
        }
        i = i + 1;
    }
    assert(all.take(extrinsics@.len() as int) =~= all);
    cmds
}

/// Every command found in a block lies on the canvas.
pub proof fn lemma_block_commands_on_canvas(extrinsics: Seq<Seq<u8>>)
    ensures
        forall|i: int|
            0 <= i < block_commands(extrinsics).len() ==> #[trigger] block_commands(extrinsics)[i].x
                < 1000 && block_commands(extrinsics)[i].y < 1000,
    decreases extrinsics.len(),
{
    if extrinsics.len() > 0 {
        let earlier = block_commands(extrinsics.drop_last());
        lemma_block_commands_on_canvas(extrinsics.drop_last());
        let bytes = extrinsics.last();
        match spec_unchecked_extrinsic(bytes) {
            Ok((ExtrinsicModel::V4 { call: CallModel::SystemRemark(remark), .. }, _)) => {
                lemma_parsed_command_on_canvas(remark);
            },
            _ => {},
        }
        match extrinsic_command(bytes) {
            Some(c) => {
                assert(c.x < 1000 && c.y < 1000);
                assert forall|i: int|
                    0 <= i < block_commands(extrinsics).len() implies #[trigger] block_commands(
                    extrinsics,
                )[i].x < 1000 && block_commands(extrinsics)[i].y < 1000 by {
                    if i < earlier.len() {
                        assert(block_commands(extrinsics)[i] == earlier[i]);
                    }
                }
            },
            None => {},
        }
    }
}

/// The bytes of `s` after every leading `"0x"` has been stripped.
pub open spec fn strip_hex_prefix(s: Seq<u8>) -> Seq<u8>
    decreases s.len(),
{
    if s.len() >= 2 && s[0] == 0x30 && s[1] == 0x78 {
        strip_hex_prefix(s.skip(2))
    } else {
        s
    }
}

/// The value of a hexadecimal digit, of either case.
pub open spec fn hex_digit(b: u8) -> Option<nat> {
    if 0x30 <= b <= 0x39 {
        Some((b - 0x30) as nat)
    } else if 0x61 <= b <= 0x66 {
        Some((b - 0x61 + 10) as nat)
    } else if 0x41 <= b <= 0x46 {
        Some((b - 0x41 + 10) as nat)
    } else {
        None
    }
}

/// Every byte is a hexadecimal digit.
pub open spec fn all_hex_digits(s: Seq<u8>) -> bool {
    forall|i: int| 0 <= i < s.len() ==> #[trigger] hex_digit(s[i]) is Some
}

/// The value of a string of hexadecimal digits, most significant first.
pub open spec fn hex_value(s: Seq<u8>) -> nat
    decreases s.len(),
{
    if s.len() == 0 {
        0
    } else {
        16 * hex_value(s.drop_last()) + match hex_digit(s.last()) {
            Some(d) => d,
            None => 0,
        }
    }
}

/// The digits of a hexadecimal number after its optional `+` sign.
pub open spec fn unsigned_digits(s: Seq<u8>) -> Seq<u8> {
    if s.len() >= 1 && s[0] == 0x2b {
        s.drop_first()
    } else {
        s
    }
}

/// What a block number in a header means: the hexadecimal number after the leading `"0x"`s, in
/// the syntax of `u64::from_str_radix` with radix 16 (an optional `+`, then at least one digit),
/// where it fits in a `u64`.
pub open spec fn spec_block_number(s: Seq<u8>) -> Option<u64> {
    let digits = unsigned_digits(strip_hex_prefix(s));
    if digits.len() > 0 && all_hex_digits(digits) && hex_value(digits) <= u64::MAX {
        Some(hex_value(digits) as u64)
    } else {
        None
    }
}

proof fn lemma_strip_hex_prefix_is_suffix(s: Seq<u8>)
    ensures
        strip_hex_prefix(s).len() <= s.len(),
        strip_hex_prefix(s) =~= s.skip(s.len() - strip_hex_prefix(s).len()),
    decreases s.len(),
{
    if s.len() >= 2 && s[0] == 0x30 && s[1] == 0x78 {
        lemma_strip_hex_prefix_is_suffix(s.skip(2));
        assert(s.skip(2).skip(s.skip(2).len() - strip_hex_prefix(s).len()) =~= s.skip(
            s.len() - strip_hex_prefix(s).len(),
        ));
    } else {
        assert(s.skip(0) =~= s);
    }
}

/// A longer prefix of a digit string never has a smaller value.
proof fn lemma_hex_value_prefix_monotone(s: Seq<u8>, i: int)
    requires
        0 <= i <= s.len(),
    ensures
        hex_value(s.take(i)) <= hex_value(s),
    decreases s.len() - i,
{
    if i < s.len() {
        lemma_hex_value_prefix_monotone(s, i + 1);
        assert(s.take(i + 1).drop_last() =~= s.take(i));
    } else {
        assert(s.take(i) =~= s);
    }
}

/// The value of a hexadecimal digit byte.
fn digit_value(b: u8) -> (r: Option<u8>)
    ensures
        match r {
            Some(d) => hex_digit(b) == Some(d as nat) && d < 16,
            None => hex_digit(b) is None,
        },
{
    if 0x30 <= b && b <= 0x39 {
        Some(b - 0x30)
    } else if 0x61 <= b && b <= 0x66 {
        Some(b - 0x61 + 10)
    } else if 0x41 <= b && b <= 0x46 {
        Some(b - 0x41 + 10)
    } else {
        None
    }
}

/// Parses a block number written as in a header.
pub fn parse_block_number(s: &str) -> (r: Option<u64>)
    ensures
        r == spec_block_number(vstd::utf8::encode_utf8(s@)),
{
    let bytes = s.as_bytes();
    let mut start: usize = 0;
    proof {
        lemma_strip_hex_prefix_is_suffix(bytes@);
        assert(bytes@.skip(0) =~= bytes@);
    }
    while start < bytes.len() && bytes.len() - start >= 2 && bytes[start] == 0x30 && bytes[start + 1] == 0x78
        invariant
            start <= bytes@.len(),
            strip_hex_prefix(bytes@.skip(start as int)) == strip_hex_prefix(bytes@),
        decreases bytes@.len() - start,
    {
        assert(bytes@.skip(start as int).skip(2) =~= bytes@.skip(start + 2));
        start = start + 2;
    }
    let ghost stripped = bytes@.skip(start as int);
    assert(strip_hex_prefix(stripped) == stripped);
    if start < bytes.len() && bytes[start] == 0x2b {
        start = start + 1;
    }
    let ghost digits = unsigned_digits(stripped);
    assert(digits =~= bytes@.skip(start as int));
    if start >= bytes.len() {
        return None;
    }
    let mut value: u64 = 0;
    let mut i: usize = start;
    while i < bytes.len()
        invariant
            start <= i <= bytes@.len(),
            bytes@ == vstd::utf8::encode_utf8(s@),
            digits == unsigned_digits(strip_hex_prefix(bytes@)),
            digits.len() > 0,
            digits =~= bytes@.skip(start as int),
            all_hex_digits(digits.take(i - start)),
            value == hex_value(digits.take(i - start)),
        decreases bytes@.len() - i,
    {
        let ghost k = i - start;
        assert(digits.take(k + 1).drop_last() =~= digits.take(k));
        assert(digits.take(k + 1).last() == bytes@[i as int]);
        match digit_value(bytes[i]) {
            None => {
                assert(digits[k] == bytes@[i as int]);
                assert(hex_digit(digits[k]) is None);
                assert(!all_hex_digits(digits));
                return None;
            },
            Some(d) => {
                assert(hex_value(digits.take(k + 1)) == 16 * value + d);
                if value > (u64::MAX - d as u64) / 16 {
                    proof {
                        lemma_hex_value_prefix_monotone(digits, k + 1);
                    }
                    assert(hex_value(digits.take(k + 1)) > u64::MAX) by (nonlinear_arith)
                        requires
                            hex_value(digits.take(k + 1)) == 16 * value + d,
                            value > (u64::MAX - d) / 16,
                    ;
                    return None;
                }
                assert(16 * value + d <= u64::MAX) by (nonlinear_arith)
                    requires
                        value <= (u64::MAX - d) / 16,
                        d < 16,
                ;
                value = value * 16 + d as u64;
            },
        }
        i = i + 1;
    }
    assert(digits.take(i - start) =~= digits);
    Some(value)
}

impl Header {
    /// The number of the block that this header heads.
    pub fn block_number(&self) -> (r: Option<u64>)
        ensures
            r == spec_block_number(vstd::utf8::encode_utf8(self.number@)),
    {
        parse_block_number(self.number.as_str())
    }
}

/// Whether an extrinsic is signed makes no difference to its command: the command is that of
/// its call when the call is a remark, and there is none otherwise.
pub proof fn lemma_extrinsic_command_is_the_remarks(bytes: Seq<u8>)
    ensures
        spec_unchecked_extrinsic(bytes) matches Ok((ExtrinsicModel::V4 { call, .. }, _)) ==> extrinsic_command(bytes)
            == match call {
            CallModel::SystemRemark(remark) => spec_parse_command(remark),
            CallModel::Other(_) => None,
        },
        spec_unchecked_extrinsic(bytes) is Err ==> extrinsic_command(bytes) is None,
{
}

/// A signed extrinsic carries the same command as the unsigned extrinsic with the same call:
/// the version byte 0x84 followed by a signature block and a call, against the version byte 4
/// followed by the call alone.
pub proof fn lemma_signed_and_unsigned_same_command(sig: Seq<u8>, call: Seq<u8>)
    requires
        spec_signature(sig + call) matches Ok((_, rest)) && rest == call,
    ensures
        extrinsic_command(seq![0x84u8] + sig + call) == extrinsic_command(seq![0x04u8] + call),
{
    let signed = seq![0x84u8] + sig + call;
    let unsigned = seq![0x04u8] + call;
    assert(signed.drop_first() =~= sig + call);
    assert(unsigned.drop_first() =~= call);
    assert(crate::scale::spec_read_byte(signed) == Ok::<(u8, Seq<u8>), crate::scale::DecodeError>((0x84u8, sig + call)));
    assert(crate::scale::spec_read_byte(unsigned) == Ok::<(u8, Seq<u8>), crate::scale::DecodeError>((0x04u8, call)));
    let sig_model = spec_signature(sig + call)->Ok_0.0;
    assert(spec_signature(sig + call) == Ok::<(crate::chain_data::v4::SignatureModel, Seq<u8>), crate::scale::DecodeError>((sig_model, call)));
    match spec_call(call) {
        Ok((c, r)) => {
            assert(spec_unchecked_extrinsic(signed) == Ok::<(ExtrinsicModel, Seq<u8>), crate::scale::DecodeError>((ExtrinsicModel::V4 { signature: Some(sig_model), call: c }, r)));
            assert(spec_unchecked_extrinsic(unsigned) == Ok::<(ExtrinsicModel, Seq<u8>), crate::scale::DecodeError>((ExtrinsicModel::V4 { signature: None, call: c }, r)));
        },
        Err(e) => {
            assert(spec_unchecked_extrinsic(signed) == Err::<(ExtrinsicModel, Seq<u8>), crate::scale::DecodeError>(e));
            assert(spec_unchecked_extrinsic(unsigned) == Err::<(ExtrinsicModel, Seq<u8>), crate::scale::DecodeError>(e));
        },
    }
}

/// The hexadecimal digit of a value below 16, lower case.
pub open spec fn hex_char(d: nat) -> u8 {
    if d < 10 {
        (0x30 + d) as u8
    } else {
        (0x61 + d - 10) as u8
    }
}

/// The hexadecimal digits of a number, lower case, most significant first, without leading
/// zeros.
pub open spec fn hex_lower(n: nat) -> Seq<u8>
    decreases n,
{
    if n < 16 {
        seq![hex_char(n)]
    } else {
        hex_lower(n / 16).push(hex_char(n % 16))
    }
}

/// The digits read are exactly the hexadecimal alphabet: '0' to '9' read as 0 to 9, and 'a' to
/// 'f' and 'A' to 'F' as 10 to 15; no other byte is a digit.
pub proof fn lemma_hex_digit_alphabet(b: u8, d: nat)
    requires
        d < 16,
    ensures
        hex_digit(hex_char(d)) == Some(d),
        d >= 10 ==> hex_digit((hex_char(d) - 32) as u8) == Some(d),
        hex_digit(b) is Some <==> (0x30 <= b <= 0x39 || 0x61 <= b <= 0x66 || 0x41 <= b <= 0x46),
        hex_digit(b) matches Some(v) ==> v < 16 && (b == hex_char(v) || b == hex_char(v) - 32),
{
}

proof fn lemma_hex_lower_digits(n: nat)
    ensures
        hex_lower(n).len() >= 1,
        all_hex_digits(hex_lower(n)),
        forall|i: int|
            0 <= i < hex_lower(n).len() ==> (0x30 <= #[trigger] hex_lower(n)[i] <= 0x39 || 0x61
                <= hex_lower(n)[i] <= 0x66),
        hex_value(hex_lower(n)) == n,
    decreases n,
{
    if n < 16 {
        let s = hex_lower(n);
        assert(s.drop_last() =~= Seq::<u8>::empty());
        assert(hex_value(s) == 16 * hex_value(s.drop_last()) + n);
    } else {
        lemma_hex_lower_digits(n / 16);
        let s = hex_lower(n);
        let p = hex_lower(n / 16);
        assert(s.drop_last() =~= p);
        assert forall|i: int| 0 <= i < s.len() implies #[trigger] hex_digit(s[i]) is Some && (0x30
            <= s[i] <= 0x39 || 0x61 <= s[i] <= 0x66) by {
            if i < p.len() {
                assert(s[i] == p[i]);
            }
        }
        assert(n == 16 * (n / 16) + n % 16) by (nonlinear_arith);
    }
}

/// The number of a header reads back: the bytes of "0x" followed by the lower-case hexadecimal
/// digits of any `u64` read as that number.
pub proof fn lemma_hex_block_number_reads_back(n: u64)
    ensures
        spec_block_number(seq![0x30u8, 0x78u8] + hex_lower(n as nat)) == Some(n),
{
    let d = hex_lower(n as nat);
    let s = seq![0x30u8, 0x78u8] + d;
    lemma_hex_lower_digits(n as nat);
    assert(s.skip(2) =~= d);
    assert(strip_hex_prefix(s) == strip_hex_prefix(d));
    if d.len() >= 2 {
        assert(d[1] != 0x78);
    }
    assert(strip_hex_prefix(d) == d);
    assert(d[0] != 0x2b);
    assert(unsigned_digits(d) == d);
}

/// The unsigned extrinsic that remarks the command for the pixel at (`x`, `y`) with colour
/// `rgb`: version 4, the remark call, the payload length 8 (compact, 0x20), the command.
pub open spec fn remark_extrinsic(x: nat, y: nat, rgb: (u8, u8, u8)) -> Seq<u8> {
    seq![0x04u8, 0x00u8, 0x01u8, 0x20u8] + command_bytes(x, y, rgb)
}

/// An extrinsic that remarks a command carries that command, whatever bytes follow it.
pub proof fn lemma_remark_extrinsic_command(x: nat, y: nat, rgb: (u8, u8, u8), rest: Seq<u8>)
    requires
        x < 1000,
        y < 1000,
    ensures
        extrinsic_command(remark_extrinsic(x, y, rgb) + rest) == Some(
            Command { x: x as u16, y: y as u16, rgb },
        ),
{
    let cb = command_bytes(x, y, rgb);
    let s = remark_extrinsic(x, y, rgb) + rest;
    lemma_call_bytes_decode(cb, rest, 0, 0);
    assert(s.drop_first() =~= seq![0x00u8, 0x01u8, (4 * cb.len()) as u8] + cb + rest);
    lemma_command_bytes_parse(x, y, rgb);
}

/// The commands of a block whose extrinsics each remark a command are those commands, in the
/// order of the extrinsics.
pub proof fn lemma_block_of_remarks(cmds: Seq<Command>)
    requires
        forall|i: int| 0 <= i < cmds.len() ==> #[trigger] cmds[i].x < 1000 && cmds[i].y < 1000,
    ensures
        block_commands(
            cmds.map_values(|c: Command| remark_extrinsic(c.x as nat, c.y as nat, c.rgb)),
        ) == cmds,
    decreases cmds.len(),
{
    let exts = cmds.map_values(|c: Command| remark_extrinsic(c.x as nat, c.y as nat, c.rgb));
    if cmds.len() > 0 {
        let prev = cmds.drop_last();
        assert forall|i: int| 0 <= i < prev.len() implies #[trigger] prev[i].x < 1000 && prev[i].y
            < 1000 by {
            assert(prev[i] == cmds[i]);
        }
        lemma_block_of_remarks(prev);
        assert(exts.drop_last() =~= prev.map_values(
            |c: Command| remark_extrinsic(c.x as nat, c.y as nat, c.rgb),
        ));
        let c = cmds.last();
        assert(c.x < 1000 && c.y < 1000) by {
            assert(cmds[cmds.len() - 1] == c);
        }
        lemma_remark_extrinsic_command(c.x as nat, c.y as nat, c.rgb, Seq::empty());
        assert(remark_extrinsic(c.x as nat, c.y as nat, c.rgb) + Seq::<u8>::empty() =~= exts.last());
        assert(cmds =~= prev.push(c));
    } else {
        assert(cmds =~= Seq::<Command>::empty());
    }
}

} // verus!
