use vstd::prelude::*;
use crate::limine::{BaseRevision, FramebufferRequest};

verus! {

/// The stages of the boot sequence. `Halted` is the only terminal stage.
#[derive(Clone, Copy, Debug, PartialEq, Eq, Structural)]
pub enum BootStage {
    Negotiating,
    AcquiringFramebuffer,
    Running,
    Halted,
}

/// The stage that follows `stage`, given the revision marker and the
/// framebuffer request as the bootloader left them.
pub open spec fn next_stage(
    stage: BootStage,
    marker: BaseRevision,
    request: FramebufferRequest,
) -> BootStage {
    match stage {
        BootStage::Negotiating => if marker.supported() {
            BootStage::AcquiringFramebuffer
        } else {
            BootStage::Halted
        },
        BootStage::AcquiringFramebuffer => if request.has_framebuffer() {
            BootStage::Running
        } else {
            BootStage::Halted
        },
        BootStage::Running => BootStage::Halted,
        BootStage::Halted => BootStage::Halted,
    }
}

/// Decides the stage after `stage`: negotiation goes on only where the
/// bootloader acknowledged the revision, acquisition only where it gave a
/// framebuffer, a running kernel halts once its work is drawn, and a halted
/// one stays halted.
pub fn advance(stage: BootStage, marker: &BaseRevision, request: &FramebufferRequest) -> (r:
    BootStage)
    requires
        request.wf(),
    ensures
        r == next_stage(stage, *marker, *request),
{
    match stage {
        BootStage::Negotiating => {
            if marker.is_revision_supported() {
                BootStage::AcquiringFramebuffer
            } else {
                BootStage::Halted
            }
        },
        BootStage::AcquiringFramebuffer => {
            if request.first_framebuffer().is_some() {
                BootStage::Running
            } else {
                BootStage::Halted
            }
        },
        BootStage::Running => BootStage::Halted,
        BootStage::Halted => BootStage::Halted,
    }
}

/// The stage that a panic leads to, from whatever stage it came in: the
/// kernel halts, and never continues.
pub fn panic(stage: BootStage) -> (r: BootStage)
    ensures
        r == BootStage::Halted,
{
    BootStage::Halted
}

/// Once halted, the boot sequence never leaves that stage, however many
/// steps follow.
pub proof fn lemma_halted_is_terminal(
    marker: BaseRevision,
    request: FramebufferRequest,
    steps: nat,
)
    ensures
        stage_after(BootStage::Halted, marker, request, steps) == BootStage::Halted,
    decreases steps,
{
    if steps > 0 {
        lemma_halted_is_terminal(marker, request, (steps - 1) as nat);
    }
}

/// The stage reached from `stage` after `steps` steps.
pub open spec fn stage_after(
    stage: BootStage,
    marker: BaseRevision,
    request: FramebufferRequest,
    steps: nat,
) -> BootStage
    decreases steps,
{
    if steps == 0 {
        stage
    } else {
        stage_after(next_stage(stage, marker, request), marker, request, (steps - 1) as nat)
    }
}

/// The number of pixels on the diagonal that the kernel draws.
pub const DIAGONAL_LENGTH: usize = 100;

/// The colour of the diagonal: white, in a 32-bit pixel.
pub const DIAGONAL_COLOUR: u32 = 0x00ffffff;

/// The index, in 32-bit pixels, of the `i`-th pixel of the diagonal on a
/// framebuffer of `stride` pixels per scanline.
pub open spec fn diagonal_index(stride: int, i: int) -> int {
    i * stride + i
}

/// `k` is the index of one of the first `count` pixels of the diagonal.
pub open spec fn on_diagonal(stride: int, count: int, k: int) -> bool {
    exists|i: int| 0 <= i < count && k == #[trigger] diagonal_index(stride, i)
}

/// Draws the diagonal from the top-left corner of `pixels`, a framebuffer of
/// `pitch` bytes per scanline and four bytes per pixel: the `i`-th pixel of
/// the `i`-th scanline, for each `i` below `DIAGONAL_LENGTH`, becomes
/// `DIAGONAL_COLOUR`. No other pixel changes.
pub fn draw_diagonal(pixels: &mut [u32], pitch: u64)
    requires
        diagonal_index(pitch as int / 4, DIAGONAL_LENGTH - 1) < old(pixels)@.len(),
    ensures
        final(pixels)@.len() == old(pixels)@.len(),
        forall|k: int|
            0 <= k < old(pixels)@.len() ==> #[trigger] final(pixels)@[k] == if on_diagonal(
                pitch as int / 4,
                DIAGONAL_LENGTH as int,
                k,
            ) {
                DIAGONAL_COLOUR
            } else {
                old(pixels)@[k]
            },
{
    let ghost before = pixels@;
    let ghost s = pitch as int / 4;
    let len = pixels.len();
    assert(s <= s * 99 + 99) by (nonlinear_arith)
        requires
            s >= 0,
    ;
    assert(s < len);
    let stride = (pitch / 4) as usize;
    let mut i: usize = 0;
    while i < DIAGONAL_LENGTH
        invariant
            i <= DIAGONAL_LENGTH,
            stride == s,
            pixels@.len() == len,
            before.len() == len,
            diagonal_index(s, DIAGONAL_LENGTH - 1) < len,
            forall|k: int|
                0 <= k < len ==> #[trigger] pixels@[k] == if on_diagonal(s, i as int, k) {
                    DIAGONAL_COLOUR
                } else {
                    before[k]
                },
        decreases DIAGONAL_LENGTH - i,
    {
        assert(i * s + i <= 99 * s + 99) by (nonlinear_arith)
            requires
                s >= 0,
                i < 100,
        ;
        let index = i * stride + i;
        pixels[index] = DIAGONAL_COLOUR;
        proof {
            assert forall|k: int| 0 <= k < len implies #[trigger] pixels@[k] == if on_diagonal(s, i + 1, k) {
                DIAGONAL_COLOUR
            } else {
                before[k]
            } by {
                if k == index {
                    assert(0 <= i < i + 1 && k == diagonal_index(s, i as int));
                } else {
                    if on_diagonal(s, i + 1, k) {
                        let j = choose|j: int| 0 <= j < i + 1 && k == diagonal_index(s, j);
                        assert(j != i);
                        assert(0 <= j < i && k == diagonal_index(s, j));
                    }
                    if on_diagonal(s, i as int, k) {
                        let j = choose|j: int| 0 <= j < i && k == diagonal_index(s, j);
                        assert(0 <= j < i + 1 && k == diagonal_index(s, j));
                    }
                }
            }
        }
        i = i + 1;
    }
}

} // verus!
