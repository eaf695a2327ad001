use crate::rules::fits;
use rand::Rng;
use vstd::prelude::*;

verus! {

#[verifier::external_type_specification]
#[verifier::external_body]
pub struct ExThreadRng(rand::rngs::ThreadRng);

/// Relies on rand::thread_rng, which hands out the thread-local generator.
/// Nothing is known of what it will produce.
pub assume_specification[ rand::thread_rng ]() -> rand::rngs::ThreadRng;

/// Relies on rand::Rng::gen_ratio: `true` with probability `num / den`,
/// always `false` when `num` is 0 and always `true` when `num == den`.
/// It panics when `den` is 0 or `num > den`, which `requires` rules out.
#[verifier::external_body]
fn gen_ratio(rng: &mut rand::rngs::ThreadRng, num: u32, den: u32) -> (alive: bool)
    requires
        0 < den,
        num <= den,
    ensures
        num == 0 ==> !alive,
        num == den ==> alive,
{
    rng.gen_ratio(num, den)
}

/// A `rows` x `cols` grid whose cells are drawn independently, each alive
/// with probability `num / den`, from the thread-local generator.
pub fn random_grid(rows: usize, cols: usize, num: u32, den: u32) -> (grid: Vec<bool>)
    requires
        0 < den,
        num <= den,
        rows * cols <= usize::MAX,
    ensures
        fits(grid@, rows as int, cols as int),
        num == 0 ==> forall|k: int| 0 <= k < grid@.len() ==> !#[trigger] grid@[k],
        num == den ==> forall|k: int| 0 <= k < grid@.len() ==> #[trigger] grid@[k],
{
    let mut rng = rand::thread_rng();
    let len = rows * cols;
    let mut grid: Vec<bool> = Vec::with_capacity(len);
    let mut k: usize = 0;
    while k < len
        invariant
            k <= len,
            grid@.len() == k,
            0 < den,
            num <= den,
            num == 0 ==> forall|m: int| 0 <= m < k ==> !#[trigger] grid@[m],
            num == den ==> forall|m: int| 0 <= m < k ==> #[trigger] grid@[m],
        decreases len - k,
    {
        let alive = gen_ratio(&mut rng, num, den);
        grid.push(alive);
        k = k + 1;
    }
    grid
}

} // verus!
