use crate::particle::Rgba;
use crate::sandbox::lemma_index;
use crate::sandbox::shade;
use crate::sandbox::Sandbox;
use vstd::prelude::*;

verus! {

/// Channel `k` of a colour: red, green, blue, then alpha.
pub open spec fn channel(c: Rgba, k: int) -> u8 {
    if k == 0 {
        c.0
    } else if k == 1 {
        c.1
    } else if k == 2 {
        c.2
    } else {
        c.3
    }
}

/// Copies the grid's colours into an RGBA pixel buffer laid out row by row,
/// four bytes for the cell `(x, y)` starting at `(x + y * width) * 4`; bytes
/// past the grid's pixels are left as they are.
pub fn render_particles(sandbox: &Sandbox, image: &mut Vec<u8>)
    requires
        sandbox.wf(),
        old(image)@.len() >= 4 * sandbox.w() * sandbox.h(),
    ensures
        final(image)@.len() == old(image)@.len(),
        forall|i: int|
            4 * sandbox.w() * sandbox.h() <= i < old(image)@.len() ==> #[trigger] final(image)@[i]
                == old(image)@[i],
        forall|x: int, y: int, k: int|
            sandbox.in_bounds(x, y) && 0 <= k < 4 ==> #[trigger] final(image)@[(x + y * sandbox.w()) * 4 + k]
                == channel(shade(#[trigger] sandbox.cell(x, y)), k),
{
    let width = sandbox.width();
    let height = sandbox.height();
    let mut y: usize = 0;
    while y < height
        invariant
            sandbox.wf(),
            width == sandbox.w(),
            height == sandbox.h(),
            y <= height,
            image@.len() >= 4 * width * height,
            image@.len() == old(image)@.len(),
            forall|i: int|
                4 * width * height <= i < old(image)@.len() ==> #[trigger] image@[i] == old(image)@[i],
                forall|i: int|
                    4 * width * height <= i < old(image)@.len() ==> #[trigger] image@[i] == old(image)@[i],
            forall|a: int, b: int, k: int|
                sandbox.in_bounds(a, b) && b < y && 0 <= k < 4 ==> #[trigger] image@[(a + b * width) * 4 + k]
                    == channel(shade(#[trigger] sandbox.cell(a, b)), k),
        decreases height - y,
    {
        let mut x: usize = 0;
        while x < width
            invariant
                sandbox.wf(),
                width == sandbox.w(),
                height == sandbox.h(),
                y < height,
                x <= width,
                image@.len() >= 4 * width * height,
            image@.len() == old(image)@.len(),
            forall|i: int|
                4 * width * height <= i < old(image)@.len() ==> #[trigger] image@[i] == old(image)@[i],
                forall|i: int|
                    4 * width * height <= i < old(image)@.len() ==> #[trigger] image@[i] == old(image)@[i],
                forall|a: int, b: int, k: int|
                    sandbox.in_bounds(a, b) && (b < y || (b == y && a < x)) && 0 <= k < 4
                        ==> #[trigger] image@[(a + b * width) * 4 + k] == channel(
                        shade(#[trigger] sandbox.cell(a, b)),
                        k,
                    ),
            decreases width - x,
        {
            let color = sandbox.color(x, y);
            let n = image.len();
            proof {
                lemma_index(width as int, height as int, x as int, y as int, x as int, y as int);
                assert(0 <= y * width && (x + y * width) * 4 + 3 < 4 * width * height) by (nonlinear_arith)
                    requires
                        0 <= x,
                        0 <= y,
                        0 <= width,
                        y * width + x < width * height,
                ;
            }
            let index = (x + y * width) * 4;
            let ghost before = image@;
            image.set(index, color.0);
            image.set(index + 1, color.1);
            image.set(index + 2, color.2);
            image.set(index + 3, color.3);
            proof {
                assert forall|a: int, b: int, k: int|
                    sandbox.in_bounds(a, b) && (b < y || (b == y && a < x + 1)) && 0 <= k < 4
                        implies #[trigger] image@[(a + b * width) * 4 + k] == channel(
                        shade(#[trigger] sandbox.cell(a, b)),
                        k,
                    ) by {
                    lemma_index(width as int, height as int, a, b, x as int, y as int);
                    let i1 = a + b * width;
                    let i2 = x + y * width;
                    assert(0 <= i1 * 4 + k < 4 * width * height) by (nonlinear_arith)
                        requires
                            0 <= i1 < width * height,
                            0 <= k < 4,
                    ;
                    if a != x || b != y {
                        assert(i1 != i2);
                        assert(i1 * 4 + k != i2 * 4 && i1 * 4 + k != i2 * 4 + 1 && i1 * 4 + k != i2 * 4 + 2 && i1 * 4 + k != i2 * 4 + 3);
                        assert(image@[(a + b * width) * 4 + k] == before[(a + b * width) * 4 + k]);
                    }
                }
            }
            x = x + 1;
        }
        y = y + 1;
    }
}

} // verus!
