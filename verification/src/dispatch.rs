//! Probe dispatch: derives one target address per pixel of a placed
//! buffer, in row-major order, and aggregates per-probe outcomes.

use vstd::prelude::*;

use crate::codec::{encode_spec, pixel_to_ip_addr, IpAddress, Position};
use crate::loader::PixelBuffer;

verus! {

/// The full probe plan for a buffer placed at `pos`: one address per
/// pixel, in row-major order, each encoding the pixel's absolute position
/// and color. Pixel `i` sits at local coordinate
/// (`i % width`, `i / width`).
pub open spec fn probe_plan(b: PixelBuffer, pos: Position) -> Seq<IpAddress> {
    Seq::new(
        (b.width * b.height) as nat,
        |i: int|
            encode_spec(
                Position {
                    x: (pos.x + i % (b.width as int)) as usize,
                    y: (pos.y + i / (b.width as int)) as usize,
                },
                b.pixels@[i],
            ),
    )
}

/// Derives the target address of every pixel of `buffer` placed at
/// `pos`: exactly one address per pixel, in row-major order.
pub fn ip_vec(buffer: &PixelBuffer, pos: Position) -> (r: Vec<IpAddress>)
    requires
        buffer.wf(),
        pos.x + buffer.width < crate::MAX_X,
        pos.y + buffer.height < crate::MAX_Y,
    ensures
        r@ == probe_plan(*buffer, pos),
        r@.len() == buffer.width * buffer.height,
{
    let width = buffer.width;
    let height = buffer.height;
    let total = buffer.pixels.len();
    let mut r: Vec<IpAddress> = Vec::new();
    let mut y: usize = 0;
    while y < height
        invariant
            buffer.wf(),
            width == buffer.width,
            height == buffer.height,
            pos.x + width < crate::MAX_X,
            pos.y + height < crate::MAX_Y,
            y <= height,
            total == buffer.pixels@.len(),
            total == width * height,
            r@.len() == y * width,
            forall|i: int| 0 <= i < r@.len() ==> r@[i] == probe_plan(*buffer, pos)[i],
        decreases height - y,
    {
        let mut x: usize = 0;
        while x < width
            invariant
                buffer.wf(),
                width == buffer.width,
                height == buffer.height,
                pos.x + width < crate::MAX_X,
                pos.y + height < crate::MAX_Y,
                y < height,
                x <= width,
                total == buffer.pixels@.len(),
                total == width * height,
                r@.len() == y * width + x,
                forall|i: int| 0 <= i < r@.len() ==> r@[i] == probe_plan(*buffer, pos)[i],
            decreases width - x,
        {
            proof {
                assert(y * width + x < width * height && (y * width + x) % (width as int) == x && (
                y * width + x) / (width as int) == y) by (nonlinear_arith)
                    requires
                        0 <= y < height && 0 <= x < width,
                ;
            }
            let idx: usize = y * width + x;
            let abs = pos.add(Position { x, y });
            let addr = pixel_to_ip_addr(abs, buffer.pixels[idx]);
            r.push(addr);
            x = x + 1;
        }
        proof {
            assert((y + 1) * width == y * width + width) by (nonlinear_arith);
        }
        y = y + 1;
    }
    proof {
        assert(y * width == height * width) by (nonlinear_arith)
            requires
                y == height,
        ;
        assert(r@ =~= probe_plan(*buffer, pos));
    }
    r
}

/// No two pixels of a placed buffer are assigned the same address: the
/// probe plan has no duplicates, so a plan of length N probes exactly N
/// distinct targets.
pub proof fn lemma_probe_plan_distinct(b: PixelBuffer, pos: Position, i: int, j: int)
    requires
        b.wf(),
        pos.x + b.width < crate::MAX_X,
        pos.y + b.height < crate::MAX_Y,
        0 <= i < probe_plan(b, pos).len(),
        0 <= j < probe_plan(b, pos).len(),
        i != j,
    ensures
        probe_plan(b, pos)[i] != probe_plan(b, pos)[j],
{
    let w = b.width as int;
    let h = b.height as int;
    assert(w >= 1 && h >= 1) by (nonlinear_arith)
        requires
            w >= 0 && h >= 0 && 0 <= i < w * h,
    ;
    assert(i % w < w && 0 <= i % w && i / w < h && 0 <= i / w && i == w * (i / w) + i % w)
        by (nonlinear_arith)
        requires
            w >= 1 && h >= 1 && 0 <= i < w * h,
    ;
    assert(j % w < w && 0 <= j % w && j / w < h && 0 <= j / w && j == w * (j / w) + j % w)
        by (nonlinear_arith)
        requires
            w >= 1 && h >= 1 && 0 <= j < w * h,
    ;
    let pi = Position { x: (pos.x + i % w) as usize, y: (pos.y + i / w) as usize };
    let pj = Position { x: (pos.x + j % w) as usize, y: (pos.y + j / w) as usize };
    if probe_plan(b, pos)[i] == probe_plan(b, pos)[j] {
        crate::codec::lemma_encode_injective(pi, b.pixels@[i], pj, b.pixels@[j]);
    }
}

/// The per-address outcome of one probe: its reply stream was observed
/// until the timeout elapsed, or the probe failed to start.
#[derive(Clone, Copy, Debug, PartialEq, Eq, Structural)]
pub enum ProbeOutcome {
    Completed,
    StartFailed,
}

/// How many outcomes in the sequence are completions.
pub open spec fn count_completed(s: Seq<ProbeOutcome>) -> nat
    decreases s.len(),
{
    if s.len() == 0 {
        0
    } else {
        count_completed(s.drop_last()) + (if s.last() is Completed {
            1nat
        } else {
            0nat
        })
    }
}

/// Aggregates the collected outcomes of a finished run: counts the probes
/// that completed their timeout window, leaving start failures silently
/// dropped.
pub fn completed_probes(outcomes: &Vec<ProbeOutcome>) -> (n: usize)
    ensures
        n == count_completed(outcomes@),
{
    let mut n: usize = 0;
    let mut i: usize = 0;
    while i < outcomes.len()
        invariant
            i <= outcomes@.len(),
            n <= i,
            n == count_completed(outcomes@.take(i as int)),
        decreases outcomes@.len() - i,
    {
        proof {
            assert(outcomes@.take(i + 1int).drop_last() =~= outcomes@.take(i as int));
            assert(outcomes@.take(i + 1int).last() == outcomes@[i as int]);
        }
        match outcomes[i] {
            ProbeOutcome::Completed => {
                n = n + 1;
            },
            ProbeOutcome::StartFailed => {},
        }
        i = i + 1;
    }
    proof {
        assert(outcomes@.take(outcomes@.len() as int) =~= outcomes@);
    }
    n
}

} // verus!
