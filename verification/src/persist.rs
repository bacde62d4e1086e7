//! The layout of the file that stores and restores the progress.
//!
//! | offset | size    | description
//! | 0      | 8       | the latest block number that was scanned, little endian.
//! | 8      | 3000000 | canvas 1000 x 1000 of RGB pixels, row by row, 3 bytes per pixel.
//!
//! The library plans the writes that persisting a chunk takes; the caller performs them, each
//! as a seek to `offset` followed by writing `data`, in order.
use crate::command::{Chunk, Command, CANVAS_HEIGHT, CANVAS_WIDTH};
use crate::block::{block_commands, lemma_block_commands_on_canvas};
use crate::scale::le_value;
use vstd::prelude::*;

verus! {

/// Where the image starts in the file.
pub const IMAGE_OFFSET: u64 = 8;

/// The size of the image in bytes.
pub const IMAGE_LEN: usize = 3 * CANVAS_WIDTH * CANVAS_HEIGHT;

/// The size of the file in bytes.
pub const FILE_LEN: usize = 8 + 3 * CANVAS_WIDTH * CANVAS_HEIGHT;

/// One write into the file: `data` at `offset`.
pub struct FileWrite {
    pub offset: u64,
    pub data: Vec<u8>,
}

impl View for FileWrite {
    type V = (int, Seq<u8>);

    open spec fn view(&self) -> (int, Seq<u8>) {
        (self.offset as int, self.data@)
    }
}

/// The eight little-endian bytes of a block number.
pub open spec fn le_bytes(n: u64) -> Seq<u8> {
    seq![
        (n % 0x100) as u8,
        ((n / 0x100) % 0x100) as u8,
        ((n / 0x10000) % 0x100) as u8,
        ((n / 0x1000000) % 0x100) as u8,
        ((n / 0x100000000) % 0x100) as u8,
        ((n / 0x10000000000) % 0x100) as u8,
        ((n / 0x1000000000000) % 0x100) as u8,
        ((n / 0x100000000000000) % 0x100) as u8,
    ]
}

/// Where the three bytes of the pixel at (`x`, `y`) start in the file.
pub open spec fn pixel_offset(x: int, y: int) -> int {
    8 + 3 * (y * 1000 + x)
}

/// The three bytes of a colour.
pub open spec fn rgb_bytes(rgb: (u8, u8, u8)) -> Seq<u8> {
    seq![rgb.0, rgb.1, rgb.2]
}

/// The writes that persist a chunk: the block number at offset 0, then each command's colour
/// at its pixel, in the order of the commands.
pub open spec fn planned_writes(block_num: u64, cmds: Seq<Command>) -> Seq<(int, Seq<u8>)> {
    seq![(0int, le_bytes(block_num))] + cmds.map_values(
        |c: Command| (pixel_offset(c.x as int, c.y as int), rgb_bytes(c.rgb)),
    )
}

/// A file after `data` was written at `offset`: the written bytes replace what was there, the
/// file grows where they reach past its end, and a gap before them reads as zeros.
pub open spec fn write_at(file: Seq<u8>, offset: int, data: Seq<u8>) -> Seq<u8> {
    let len = if offset + data.len() > file.len() {
        offset + data.len()
    } else {
        file.len() as int
    };
    Seq::new(
        len as nat,
        |i: int|
            if offset <= i < offset + data.len() {
                data[i - offset]
            } else if i < file.len() {
                file[i]
            } else {
                0u8
            },
    )
}

/// A file after a sequence of writes, performed in order.
pub open spec fn apply_writes(file: Seq<u8>, writes: Seq<(int, Seq<u8>)>) -> Seq<u8>
    decreases writes.len(),
{
    if writes.len() == 0 {
        file
    } else {
        let w = writes.last();
        write_at(apply_writes(file, writes.drop_last()), w.0, w.1)
    }
}

/// The colour that the last command for the pixel at (`x`, `y`) paints, if any command does.
pub open spec fn last_color(cmds: Seq<Command>, x: int, y: int) -> Option<(u8, u8, u8)>
    decreases cmds.len(),
{
    if cmds.len() == 0 {
        None
    } else if cmds.last().x == x && cmds.last().y == y {
        Some(cmds.last().rgb)
    } else {
        last_color(cmds.drop_last(), x, y)
    }
}

/// The pixel lies on the canvas.
pub open spec fn on_canvas(x: int, y: int) -> bool {
    0 <= x < 1000 && 0 <= y < 1000
}

/// The eight bytes of a block number, little endian.
pub fn block_num_to_bytes(n: u64) -> (b: [u8; 8])
    ensures
        b@ == le_bytes(n),
{
    let b: [u8; 8] = [
        n as u8,
        (n >> 8) as u8,
        (n >> 16) as u8,
        (n >> 24) as u8,
        (n >> 32) as u8,
        (n >> 40) as u8,
        (n >> 48) as u8,
        (n >> 56) as u8,
    ];
    assert(n as u8 == (n % 0x100) as u8) by (bit_vector);
    assert((n >> 8) as u8 == ((n / 0x100) % 0x100) as u8) by (bit_vector);
    assert((n >> 16) as u8 == ((n / 0x10000) % 0x100) as u8) by (bit_vector);
    assert((n >> 24) as u8 == ((n / 0x1000000) % 0x100) as u8) by (bit_vector);
    assert((n >> 32) as u8 == ((n / 0x100000000) % 0x100) as u8) by (bit_vector);
    assert((n >> 40) as u8 == ((n / 0x10000000000) % 0x100) as u8) by (bit_vector);
    assert((n >> 48) as u8 == ((n / 0x1000000000000) % 0x100) as u8) by (bit_vector);
    assert((n >> 56) as u8 == ((n / 0x100000000000000) % 0x100) as u8) by (bit_vector);
    assert(b@ =~= le_bytes(n));
    b
}

/// The block number that eight little-endian bytes hold.
pub fn block_num_from_bytes(b: &[u8]) -> (n: u64)
    requires
        b@.len() == 8,
    ensures
        n == le_value(b@),
{
    proof {
        reveal_with_fuel(le_value, 9);
        assert(b@.drop_first().drop_first().drop_first().drop_first().drop_first().drop_first().drop_first().drop_first().len() == 0);
    }
    b[0] as u64 + b[1] as u64 * 0x100 + b[2] as u64 * 0x10000 + b[3] as u64 * 0x1000000 + b[4] as u64
        * 0x100000000 + b[5] as u64 * 0x10000000000 + b[6] as u64 * 0x1000000000000 + b[7] as u64
        * 0x100000000000000
}

/// Where the colour of the pixel at (`x`, `y`) is stored in the file.
pub fn pixel_file_offset(x: u16, y: u16) -> (o: u64)
    ensures
        o == pixel_offset(x as int, y as int),
{
    8 + (y as u64 * 1000 + x as u64) * 3
}

/// The writes that persist a chunk, in the order they must be performed.
pub fn plan_writes(chunk: &Chunk) -> (writes: Vec<FileWrite>)
    ensures
        writes@.map_values(|w: FileWrite| w@) == planned_writes(chunk.block_num, chunk.cmds@),
{
    let ghost target = planned_writes(chunk.block_num, chunk.cmds@);
    let mut writes: Vec<FileWrite> = Vec::new();
    let header = block_num_to_bytes(chunk.block_num);
    writes.push(FileWrite { offset: 0, data: vstd::slice::slice_to_vec(header.as_slice()) });
    let mut i: usize = 0;
    while i < chunk.cmds.len()
        invariant
            i <= chunk.cmds@.len(),
            target == planned_writes(chunk.block_num, chunk.cmds@),
            writes@.len() == i + 1,
            forall|j: int| 0 <= j <= i ==> #[trigger] writes@[j]@ == target[j],
        decreases chunk.cmds@.len() - i,
    {
        let cmd = chunk.cmds[i];
        let mut rgb: Vec<u8> = Vec::new();
        rgb.push(cmd.rgb.0);
        rgb.push(cmd.rgb.1);
        rgb.push(cmd.rgb.2);
        assert(rgb@ =~= rgb_bytes(cmd.rgb));
        writes.push(FileWrite { offset: pixel_file_offset(cmd.x, cmd.y), data: rgb });
        i = i + 1;
    }
    assert(writes@.map_values(|w: FileWrite| w@) =~= target);
    writes
}

/// Writing bytes that lie inside the file keeps its length, and changes exactly the bytes
/// written.
proof fn lemma_write_inside(file: Seq<u8>, offset: int, data: Seq<u8>)
    requires
        0 <= offset,
        offset + data.len() <= file.len(),
    ensures
        write_at(file, offset, data).len() == file.len(),
        write_at(file, offset, data).subrange(offset, offset + data.len()) =~= data,
        forall|i: int|
            0 <= i < file.len() && !(offset <= i < offset + data.len()) ==> #[trigger] write_at(
                file,
                offset,
                data,
            )[i] == file[i],
{
}

/// Two pixels of the canvas that differ have disjoint bytes.
proof fn lemma_pixels_disjoint(x1: int, y1: int, x2: int, y2: int)
    requires
        on_canvas(x1, y1),
        on_canvas(x2, y2),
        x1 != x2 || y1 != y2,
    ensures
        pixel_offset(x1, y1) + 3 <= pixel_offset(x2, y2) || pixel_offset(x2, y2) + 3
            <= pixel_offset(x1, y1),
{
}

/// The shape of the planned writes: the block number first, one write per command after it.
proof fn lemma_planned_writes_shape(block_num: u64, cmds: Seq<Command>)
    ensures
        planned_writes(block_num, cmds).len() == cmds.len() + 1,
        cmds.len() == 0 ==> planned_writes(block_num, cmds) =~= seq![(0int, le_bytes(block_num))],
        cmds.len() > 0 ==> planned_writes(block_num, cmds).drop_last() =~= planned_writes(
            block_num,
            cmds.drop_last(),
        ),
        cmds.len() > 0 ==> planned_writes(block_num, cmds).last() == (
            pixel_offset(cmds.last().x as int, cmds.last().y as int),
            rgb_bytes(cmds.last().rgb),
        ),
{
}

/// The bytes of a pixel after the colour of a command was written over a file at least as
/// long as the layout.
proof fn lemma_pixel_after_command(g: Seq<u8>, c: Command, x: int, y: int)
    requires
        g.len() >= FILE_LEN,
        on_canvas(c.x as int, c.y as int),
        on_canvas(x, y),
    ensures
        write_at(g, pixel_offset(c.x as int, c.y as int), rgb_bytes(c.rgb)).len() == g.len(),
        write_at(g, pixel_offset(c.x as int, c.y as int), rgb_bytes(c.rgb)).take(8) =~= g.take(8),
        write_at(g, pixel_offset(c.x as int, c.y as int), rgb_bytes(c.rgb)).subrange(
            pixel_offset(x, y),
            pixel_offset(x, y) + 3,
        ) =~= if c.x == x && c.y == y {
            rgb_bytes(c.rgb)
        } else {
            g.subrange(pixel_offset(x, y), pixel_offset(x, y) + 3)
        },
{
    let o = pixel_offset(c.x as int, c.y as int);
    lemma_write_inside(g, o, rgb_bytes(c.rgb));
    if !(c.x == x && c.y == y) {
        lemma_pixels_disjoint(x, y, c.x as int, c.y as int);
    }
}

/// The bytes of the pixels, and the block number, after the block number alone was written
/// over a file at least as long as the layout.
proof fn lemma_after_block_num(file: Seq<u8>, block_num: u64, x: int, y: int)
    requires
        file.len() >= FILE_LEN,
        on_canvas(x, y),
    ensures
        write_at(file, 0, le_bytes(block_num)).len() == file.len(),
        write_at(file, 0, le_bytes(block_num)).take(8) =~= le_bytes(block_num),
        write_at(file, 0, le_bytes(block_num)).subrange(pixel_offset(x, y), pixel_offset(x, y) + 3)
            =~= file.subrange(pixel_offset(x, y), pixel_offset(x, y) + 3),
{
    lemma_write_inside(file, 0, le_bytes(block_num));
}

/// The file after persisting a chunk onto a file at least as long as the layout whose commands all lie on
/// the canvas: its length, its first eight bytes and the bytes of each pixel.
#[verifier::spinoff_prover]
proof fn lemma_persist_step(file: Seq<u8>, block_num: u64, cmds: Seq<Command>)
    requires
        file.len() >= FILE_LEN,
        forall|i: int| 0 <= i < cmds.len() ==> on_canvas(#[trigger] cmds[i].x as int, cmds[i].y as int),
    ensures
        apply_writes(file, planned_writes(block_num, cmds)).len() == file.len(),
        apply_writes(file, planned_writes(block_num, cmds)).take(8) =~= le_bytes(block_num),
        forall|x: int, y: int|
            on_canvas(x, y) ==> #[trigger] apply_writes(file, planned_writes(block_num, cmds)).subrange(
                pixel_offset(x, y),
                pixel_offset(x, y) + 3,
            ) =~= match last_color(cmds, x, y) {
                Some(c) => rgb_bytes(c),
                None => file.subrange(pixel_offset(x, y), pixel_offset(x, y) + 3),
            },
    decreases cmds.len(),
{
    let ws = planned_writes(block_num, cmds);
    let f = apply_writes(file, ws);
    lemma_planned_writes_shape(block_num, cmds);
    if cmds.len() == 0 {
        assert(ws.drop_last() =~= Seq::<(int, Seq<u8>)>::empty());
        assert(apply_writes(file, ws.drop_last()) == file);
        assert(f == write_at(file, 0, le_bytes(block_num)));
        lemma_write_inside(file, 0, le_bytes(block_num));
        assert forall|x: int, y: int| on_canvas(x, y) implies #[trigger] f.subrange(
            pixel_offset(x, y),
            pixel_offset(x, y) + 3,
        ) =~= match last_color(cmds, x, y) {
            Some(c) => rgb_bytes(c),
            None => file.subrange(pixel_offset(x, y), pixel_offset(x, y) + 3),
        } by {
            lemma_after_block_num(file, block_num, x, y);
        }
    } else {
        let prev = cmds.drop_last();
        let c = cmds.last();
        assert(on_canvas(cmds[cmds.len() - 1].x as int, cmds[cmds.len() - 1].y as int));
        assert forall|i: int| 0 <= i < prev.len() implies on_canvas(
            #[trigger] prev[i].x as int,
            prev[i].y as int,
        ) by {
            assert(prev[i] == cmds[i]);
        }
        lemma_persist_step(file, block_num, prev);
        let g = apply_writes(file, planned_writes(block_num, prev));
        assert(f == write_at(g, pixel_offset(c.x as int, c.y as int), rgb_bytes(c.rgb)));
        lemma_pixel_after_command(g, c, 0, 0);
        assert forall|x: int, y: int| on_canvas(x, y) implies #[trigger] f.subrange(
            pixel_offset(x, y),
            pixel_offset(x, y) + 3,
        ) =~= match last_color(cmds, x, y) {
            Some(col) => rgb_bytes(col),
            None => file.subrange(pixel_offset(x, y), pixel_offset(x, y) + 3),
        } by {
            lemma_pixel_after_command(g, c, x, y);
        }
    }
}

/// Reading back the block number gives the number that was stored.
pub proof fn lemma_block_num_roundtrip(n: u64)
    ensures
        le_value(le_bytes(n)) == n,
{
    reveal_with_fuel(le_value, 9);
    let s = le_bytes(n);
    let s1 = s.drop_first();
    let s2 = s1.drop_first();
    let s3 = s2.drop_first();
    let s4 = s3.drop_first();
    let s5 = s4.drop_first();
    let s6 = s5.drop_first();
    let s7 = s6.drop_first();
    let s8 = s7.drop_first();
    assert(s8.len() == 0);
    assert(s1[0] == s[1] && s2[0] == s[2] && s3[0] == s[3] && s4[0] == s[4]);
    assert(s5[0] == s[5] && s6[0] == s[6] && s7[0] == s[7]);
    assert(n == n % 0x100 + 0x100 * ((n / 0x100) % 0x100) + 0x10000 * ((n / 0x10000) % 0x100)
        + 0x1000000 * ((n / 0x1000000) % 0x100) + 0x100000000 * ((n / 0x100000000) % 0x100)
        + 0x10000000000 * ((n / 0x10000000000) % 0x100) + 0x1000000000000 * ((n / 0x1000000000000)
        % 0x100) + 0x100000000000000 * ((n / 0x100000000000000) % 0x100)) by (bit_vector);
}

/// Persisting a chunk onto a file at least as long as the layout whose commands all lie on the canvas
/// keeps the file's length; reading back the block number gives the chunk's number; and each
/// pixel holds the colour of the last command of the chunk for that pixel, or what it held
/// before where no command names it.
pub proof fn lemma_persisted_chunk_reads_back(file: Seq<u8>, block_num: u64, cmds: Seq<Command>)
    requires
        file.len() >= FILE_LEN,
        forall|i: int| 0 <= i < cmds.len() ==> on_canvas(#[trigger] cmds[i].x as int, cmds[i].y as int),
    ensures
        apply_writes(file, planned_writes(block_num, cmds)).len() == file.len(),
        le_value(apply_writes(file, planned_writes(block_num, cmds)).take(8)) == block_num,
        forall|x: int, y: int|
            on_canvas(x, y) ==> #[trigger] apply_writes(file, planned_writes(block_num, cmds)).subrange(
                pixel_offset(x, y),
                pixel_offset(x, y) + 3,
            ) == match last_color(cmds, x, y) {
                Some(c) => rgb_bytes(c),
                None => file.subrange(pixel_offset(x, y), pixel_offset(x, y) + 3),
            },
{
    lemma_persist_step(file, block_num, cmds);
    lemma_block_num_roundtrip(block_num);
}

/// Persisting the chunk of a block onto a file at least as long as the layout: the block number reads
/// back, and each pixel holds the colour of the block's last command for it, or what it held
/// before.
pub proof fn lemma_block_chunk_reads_back(file: Seq<u8>, block_num: u64, extrinsics: Seq<Seq<u8>>)
    requires
        file.len() >= FILE_LEN,
    ensures
        ({
            let cmds = block_commands(extrinsics);
            let f = apply_writes(file, planned_writes(block_num, cmds));
            &&& f.len() == file.len()
            &&& le_value(f.take(8)) == block_num
            &&& forall|x: int, y: int|
                on_canvas(x, y) ==> #[trigger] f.subrange(pixel_offset(x, y), pixel_offset(x, y) + 3)
                    == match last_color(cmds, x, y) {
                    Some(c) => rgb_bytes(c),
                    None => file.subrange(pixel_offset(x, y), pixel_offset(x, y) + 3),
                }
        }),
{
    let cmds = block_commands(extrinsics);
    lemma_block_commands_on_canvas(extrinsics);
    assert forall|i: int| 0 <= i < cmds.len() implies on_canvas(
        #[trigger] cmds[i].x as int,
        cmds[i].y as int,
    ) by {}
    lemma_persisted_chunk_reads_back(file, block_num, cmds);
}

/// The image region of a file.
pub open spec fn image(file: Seq<u8>) -> Seq<u8> {
    file.subrange(IMAGE_OFFSET as int, FILE_LEN as int)
}

/// The header stays what the block number wrote: the pixel writes all start at offset 8 or
/// later.
proof fn lemma_header_kept(file: Seq<u8>, block_num: u64, cmds: Seq<Command>)
    ensures
        apply_writes(file, planned_writes(block_num, cmds)).len() >= 8,
        apply_writes(file, planned_writes(block_num, cmds)).take(8) =~= le_bytes(block_num),
    decreases cmds.len(),
{
    let ws = planned_writes(block_num, cmds);
    let f = apply_writes(file, ws);
    lemma_planned_writes_shape(block_num, cmds);
    if cmds.len() == 0 {
        assert(ws.drop_last() =~= Seq::<(int, Seq<u8>)>::empty());
        assert(apply_writes(file, ws.drop_last()) == file);
        assert(f == write_at(file, 0, le_bytes(block_num)));
    } else {
        let c = cmds.last();
        lemma_header_kept(file, block_num, cmds.drop_last());
        let g = apply_writes(file, planned_writes(block_num, cmds.drop_last()));
        let o = pixel_offset(c.x as int, c.y as int);
        assert(f == write_at(g, o, rgb_bytes(c.rgb)));
        assert(o >= 8);
        assert forall|i: int| 0 <= i < 8 implies f[i] == g[i] by {}
    }
}

/// After any chunk is persisted onto any file, its block number reads back: the header write
/// does not depend on the commands, and no pixel write reaches the header.
pub proof fn lemma_block_num_reads_back(file: Seq<u8>, block_num: u64, cmds: Seq<Command>)
    ensures
        le_value(apply_writes(file, planned_writes(block_num, cmds)).take(8)) == block_num,
{
    lemma_header_kept(file, block_num, cmds);
    lemma_block_num_roundtrip(block_num);
}

/// The image read back after a chunk whose commands all lie on the canvas was persisted onto a
/// file at least as long as the layout: it has the image's size, and each of its bytes belongs
/// to the pixel at (`x`, `y`) = ((k / 3) % 1000, (k / 3) / 1000) and holds that pixel's colour
/// from the chunk's last command for it, or the byte the image held before.
pub proof fn lemma_image_after_chunk(file: Seq<u8>, block_num: u64, cmds: Seq<Command>)
    requires
        file.len() >= FILE_LEN,
        forall|i: int| 0 <= i < cmds.len() ==> on_canvas(#[trigger] cmds[i].x as int, cmds[i].y as int),
    ensures
        image(apply_writes(file, planned_writes(block_num, cmds))).len() == IMAGE_LEN,
        forall|k: int|
            0 <= k < IMAGE_LEN ==> #[trigger] image(apply_writes(file, planned_writes(block_num, cmds)))[k]
                == match last_color(cmds, (k / 3) % 1000, (k / 3) / 1000) {
                Some(c) => rgb_bytes(c)[k % 3],
                None => image(file)[k],
            },
{
    let f = apply_writes(file, planned_writes(block_num, cmds));
    lemma_persist_step(file, block_num, cmds);
    assert forall|k: int| 0 <= k < IMAGE_LEN implies #[trigger] image(f)[k] == match last_color(
        cmds,
        (k / 3) % 1000,
        (k / 3) / 1000,
    ) {
        Some(c) => rgb_bytes(c)[k % 3],
        None => image(file)[k],
    } by {
        let p = k / 3;
        let x = p % 1000;
        let y = p / 1000;
        assert(k == 3 * (1000 * y + x) + k % 3 && 0 <= x < 1000 && 0 <= y < 1000 && 0 <= k % 3
            < 3) by (nonlinear_arith)
            requires
                0 <= k < 3000000,
                p == k / 3,
                x == p % 1000,
                y == p / 1000,
        ;
        assert(on_canvas(x, y));
        let o = pixel_offset(x, y);
        assert(o == 8 + k - k % 3);
        assert(f.subrange(o, o + 3)[k % 3] == f[k + 8]);
        assert(file.subrange(o, o + 3)[k % 3] == file[k + 8]);
    }
}

} // verus!
