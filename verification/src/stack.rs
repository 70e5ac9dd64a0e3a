use vstd::prelude::*;
use crate::schedule::{cascade_pass_at, cascade_passes};

verus! {

/// Whether `value` is what texel `texel` of cascade `level` holds after its
/// pass: the ray of the texel is marched through the interval of the level,
/// and what is left of it is either continued into the cascade `coarser`
/// that the pass has bound, or ended at the end of the interval, with
/// nothing beyond it contributing.
pub open spec fn texel_is_computed<R, M, March, Finish, Merge>(
    march: March,
    finish: Finish,
    merge: Merge,
    level: u32,
    texel: usize,
    coarser: Option<Vec<R>>,
    value: R,
) -> bool where March: Fn(u32, usize) -> M, Finish: Fn(M) -> R, Merge: Fn(M, usize, &Vec<R>) -> R {
    exists|marched: M| #[trigger]
        call_ensures(march, (level, texel), marched) && match coarser {
            Some(c) => call_ensures(merge, (marched, texel, &c), value),
            None => call_ensures(finish, (marched,), value),
        }
}

/// The cascade that the pass of cascade `level` reads, among the cascades
/// of a frame: the next coarser one where the pass merges, and none
/// otherwise.
pub open spec fn cascade_read<R>(cascades: Seq<Vec<R>>, merge_cascades: bool, level: int) -> Option<
    Vec<R>,
> {
    if merge_cascades && level + 1 < cascades.len() {
        Some(cascades[level + 1])
    } else {
        None
    }
}

/// Computes the cascades of one frame on the host, from the coarsest down
/// to the finest, each of `texels` texels. The three parts of the kernel
/// are handed in: `march` follows the ray of a texel through the interval
/// of its cascade, `finish` ends a marched ray at the end of the interval,
/// and `merge` continues it into the next coarser cascade. The result
/// holds the cascades by level, the finest first; nothing that a cascade
/// held before the frame enters it.
pub fn compute_cascades<R, M, March, Finish, Merge>(
    count: u32,
    texels: usize,
    merge_cascades: bool,
    march: March,
    finish: Finish,
    merge: Merge,
) -> (cascades: Vec<Vec<R>>) where
    March: Fn(u32, usize) -> M,
    Finish: Fn(M) -> R,
    Merge: Fn(M, usize, &Vec<R>) -> R,

    requires
        forall|level: u32, texel: usize|
            level < count && texel < texels ==> call_requires(march, (level, texel)),
        forall|level: u32, texel: usize, marched: M|
            level < count && texel < texels && call_ensures(march, (level, texel), marched)
                ==> call_requires(finish, (marched,)),
        forall|level: u32, texel: usize, marched: M, coarser: &Vec<R>|
            level < count && texel < texels && call_ensures(march, (level, texel), marched)
                && coarser.len() == texels
                ==> call_requires(merge, (marched, texel, coarser)),
    ensures
        cascades.len() == count,
        forall|level: int| 0 <= level < count ==> (#[trigger] cascades[level]).len() == texels,
        forall|level: int, texel: int|
            0 <= level < count && 0 <= texel < texels ==> texel_is_computed(
                march,
                finish,
                merge,
                level as u32,
                texel as usize,
                cascade_read(cascades@, merge_cascades, level),
                #[trigger] cascades[level][texel],
            ),
        !merge_cascades ==> forall|level: int, texel: int|
            0 <= level < count && 0 <= texel < texels ==> texel_is_computed(
                march,
                finish,
                merge,
                level as u32,
                texel as usize,
                None,
                #[trigger] cascades[level][texel],
            ),
{
    let passes = cascade_passes(count, merge_cascades);
    // The cascades in the order of their passes, the coarsest first.
    let mut done: Vec<Vec<R>> = Vec::new();
    let mut i: usize = 0;
    while i < passes.len()
        invariant
            i <= passes.len(),
            passes.len() == count,
            forall|j: int|
                0 <= j < count ==> passes[j] == cascade_pass_at(count as nat, merge_cascades, j as nat),
            done.len() == i,
            forall|j: int| 0 <= j < i ==> (#[trigger] done[j]).len() == texels,
            forall|j: int, texel: int|
                0 <= j < i && 0 <= texel < texels ==> texel_is_computed(
                    march,
                    finish,
                    merge,
                    (count - 1 - j) as u32,
                    texel as usize,
                    if merge_cascades && j >= 1 {
                        Some(done[j - 1])
                    } else {
                        None
                    },
                    #[trigger] done[j][texel],
                ),
            forall|level: u32, texel: usize|
                level < count && texel < texels ==> call_requires(march, (level, texel)),
            forall|level: u32, texel: usize, marched: M|
                level < count && texel < texels && call_ensures(march, (level, texel), marched)
                ==> call_requires(finish, (marched,)),
            forall|level: u32, texel: usize, marched: M, coarser: &Vec<R>|
                level < count && texel < texels && call_ensures(march, (level, texel), marched)
                && coarser.len() == texels
                    ==> call_requires(merge, (marched, texel, coarser)),
        decreases passes.len() - i,
    {
        let pass = passes[i];
        let ghost read: Option<Vec<R>> = if merge_cascades && i >= 1 {
            Some(done[i - 1])
        } else {
            None
        };
        let mut row: Vec<R> = Vec::new();
        let mut texel: usize = 0;
        while texel < texels
            invariant
                texel <= texels,
                i < passes.len(),
                passes.len() == count,
                done.len() == i,
                pass == cascade_pass_at(count as nat, merge_cascades, i as nat),
                read == if merge_cascades && i >= 1 {
                    Some(done[i - 1])
                } else {
                    None::<Vec<R>>
                },
                forall|j: int| 0 <= j < i ==> (#[trigger] done[j]).len() == texels,
                row.len() == texel,
                forall|t: int|
                    0 <= t < texel ==> texel_is_computed(
                        march,
                        finish,
                        merge,
                        pass.level,
                        t as usize,
                        read,
                        #[trigger] row[t],
                    ),
                forall|level: u32, texel: usize|
                    level < count && texel < texels ==> call_requires(march, (level, texel)),
                forall|level: u32, texel: usize, marched: M|
                    level < count && texel < texels && call_ensures(march, (level, texel), marched)
                        ==> call_requires(finish, (marched,)),
                forall|level: u32, texel: usize, marched: M, coarser: &Vec<R>|
                    level < count && texel < texels && call_ensures(march, (level, texel), marched)
                && coarser.len() == texels
                        ==> call_requires(merge, (marched, texel, coarser)),
            decreases texels - texel,
        {
            let marched = march(pass.level, texel);
            let ghost kept = marched;
            let value = match pass.bound_level {
                Some(_) => merge(marched, texel, &done[i - 1]),
                None => finish(marched),
            };
            assert(call_ensures(march, (pass.level, texel), kept));
            assert(texel_is_computed(march, finish, merge, pass.level, texel, read, value));
            row.push(value);
            texel = texel + 1;
        }
        done.push(row);
        i = i + 1;
    }
    // By level, the finest first: the order of the passes, reversed.
    let ghost by_pass = done@;
    let mut cascades: Vec<Vec<R>> = Vec::new();
    while done.len() > 0
        invariant
            by_pass.len() == count,
            done.len() + cascades.len() == count,
            forall|j: int| 0 <= j < done.len() ==> done[j] == by_pass[j],
            forall|level: int|
                0 <= level < cascades.len() ==> (#[trigger] cascades[level]) == by_pass[count - 1 - level],
        decreases done.len(),
    {
        match done.pop() {
            Some(row) => {
                cascades.push(row);
            },
            None => {},
        }
    }
    proof {
        assert forall|level: int, texel: int|
            0 <= level < count && 0 <= texel < texels implies texel_is_computed(
            march,
            finish,
            merge,
            level as u32,
            texel as usize,
            cascade_read(cascades@, merge_cascades, level),
            #[trigger] cascades[level][texel],
        ) by {
            let j = count - 1 - level;
            assert(cascades[level] == by_pass[j]);
            assert(by_pass[j][texel] == cascades[level][texel]);
            if merge_cascades && j >= 1 {
                assert(cascades[level + 1] == by_pass[j - 1]);
            }
        }
    }
    cascades
}

} // verus!
