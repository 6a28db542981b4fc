//! Which cached course pages survive a write of the cache: the live ones (saved at a known
//! time that is not past the cache's lifetime), newest first, at most a fixed number.
use vstd::prelude::*;

verus! {

/// How many course pages the cache keeps.
pub const MAX_CACHED_COURSE_PAGES: usize = 48;

/// A cached course page as the pruning sees it: when it was saved, if the entry says, and
/// whether that time is past the cache's lifetime.
#[derive(Debug, Clone, Copy)]
pub struct PageStamp {
    pub timestamp: Option<u64>,
    pub expired: bool,
}

/// A page that may stay: it was saved at a known time that has not expired.
pub open spec fn page_live(p: PageStamp) -> bool {
    p.timestamp is Some && !p.expired
}

/// The time page `i` was saved (0 when unknown).
pub open spec fn saved_at(pages: Seq<PageStamp>, i: int) -> int {
    match pages[i].timestamp {
        Some(t) => t as int,
        None => 0,
    }
}

/// Page `i` comes before page `j` in the order pages are kept: newer first, and in list
/// order between pages saved at the same time.
pub open spec fn kept_before(pages: Seq<PageStamp>, i: int, j: int) -> bool {
    saved_at(pages, i) > saved_at(pages, j) || (saved_at(pages, i) == saved_at(pages, j) && i < j)
}

fn before(pages: &Vec<PageStamp>, i: usize, j: usize) -> (r: bool)
    requires
        i < pages@.len(),
        j < pages@.len(),
    ensures
        r == kept_before(pages@, i as int, j as int),
{
    let a: u64 = match pages[i].timestamp {
        Some(t) => t,
        None => 0,
    };
    let b: u64 = match pages[j].timestamp {
        Some(t) => t,
        None => 0,
    };
    a > b || (a == b && i < j)
}

fn live(p: &PageStamp) -> (r: bool)
    ensures
        r == page_live(*p),
{
    p.timestamp.is_some() && !p.expired
}

/// The positions of the course pages to keep, in the order they are kept: the live pages,
/// newest first (equal times in list order), at most `MAX_CACHED_COURSE_PAGES` of them. A
/// live page is left out only when that many newer-or-earlier pages are kept.
pub fn course_pages_to_keep(pages: &Vec<PageStamp>) -> (r: Vec<usize>)
    ensures
        r@.len() <= MAX_CACHED_COURSE_PAGES,
        forall|k: int| 0 <= k < r@.len() ==> r@[k] < pages@.len() && page_live(pages@[#[trigger] r@[k] as int]),
        forall|a: int, b: int|
            0 <= a < b < r@.len() ==> kept_before(pages@, #[trigger] r@[a] as int, #[trigger] r@[b] as int),
        forall|i: int|
            0 <= i < pages@.len() && page_live(pages@[i]) && !r@.contains(i as usize) ==> {
                &&& r@.len() == MAX_CACHED_COURSE_PAGES
                &&& forall|k: int| 0 <= k < r@.len() ==> kept_before(pages@, #[trigger] r@[k] as int, i)
            },
{
    let n = pages.len();
    let mut kept: Vec<usize> = Vec::new();
    loop
        invariant_except_break
            kept@.len() <= MAX_CACHED_COURSE_PAGES,
        invariant
            n == pages@.len(),
            forall|k: int| 0 <= k < kept@.len() ==> kept@[k] < n && page_live(pages@[#[trigger] kept@[k] as int]),
            forall|a: int, b: int|
                0 <= a < b < kept@.len() ==> kept_before(pages@, #[trigger] kept@[a] as int, #[trigger] kept@[b] as int),
            forall|i: int|
                0 <= i < n && page_live(pages@[i]) && !kept@.contains(i as usize) ==> forall|k: int|
                    0 <= k < kept@.len() ==> kept_before(pages@, #[trigger] kept@[k] as int, i),
        ensures
            kept@.len() <= MAX_CACHED_COURSE_PAGES,
            forall|i: int|
                0 <= i < n && page_live(pages@[i]) && !kept@.contains(i as usize) ==> kept@.len()
                    == MAX_CACHED_COURSE_PAGES,
        decreases MAX_CACHED_COURSE_PAGES - kept@.len(),
    {
        if kept.len() >= MAX_CACHED_COURSE_PAGES {
            break;
        }
        let mut best: Option<usize> = None;
        let mut i: usize = 0;
        while i < n
            invariant
                n == pages@.len(),
                i <= n,
                kept@.len() < MAX_CACHED_COURSE_PAGES,
                forall|k: int| 0 <= k < kept@.len() ==> kept@[k] < n,
                match best {
                    Some(b) => {
                        &&& b < i
                        &&& page_live(pages@[b as int])
                        &&& (kept@.len() == 0 || kept_before(pages@, kept@.last() as int, b as int))
                        &&& forall|j: int|
                            #![trigger page_live(pages@[j])]
                            0 <= j < i && page_live(pages@[j]) && (kept@.len() == 0 || kept_before(
                                pages@,
                                kept@.last() as int,
                                j,
                            )) && j != b ==> kept_before(pages@, b as int, j)
                    },
                    None => forall|j: int|
                        #![trigger page_live(pages@[j])]
                        0 <= j < i && page_live(pages@[j]) ==> !(kept@.len() == 0 || kept_before(
                            pages@,
                            kept@.last() as int,
                            j,
                        )),
                },
            decreases n - i,
        {
            let ghost old_best = best;
            if live(&pages[i]) {
                let after_last = kept.len() == 0 || before(pages, kept[kept.len() - 1], i);
                if after_last {
                    match best {
                        None => {
                            best = Some(i);
                        },
                        Some(b) => {
                            if before(pages, i, b) {
                                best = Some(i);
                            }
                        },
                    }
                }
            }
            proof {
                if let Some(nb) = best {
                    assert forall|j: int|
                        0 <= j < i + 1 && page_live(pages@[j]) && (kept@.len() == 0 || kept_before(
                            pages@,
                            kept@.last() as int,
                            j,
                        )) && j != nb implies kept_before(pages@, nb as int, j) by {
                        if let Some(ob) = old_best {
                            if j < i && j != ob {
                                assert(kept_before(pages@, ob as int, j));
                            }
                        }
                    }
                }
            }
            i += 1;
        }
        match best {
            None => {
                proof {
                    assert forall|j: int|
                        0 <= j < n && page_live(pages@[j]) && !kept@.contains(j as usize) implies kept@.len()
                        == MAX_CACHED_COURSE_PAGES by {
                        assert(!(kept@.len() == 0 || kept_before(pages@, kept@.last() as int, j)));
                        let last = kept@.len() - 1;
                        assert(kept_before(pages@, kept@[last] as int, j));
                        assert(kept@.last() == kept@[last]);
                    }
                }
                break;
            },
            Some(b) => {
                let ghost old_kept = kept@;
                proof {
                    if old_kept.contains(b) {
                        let k = choose|k: int| 0 <= k < old_kept.len() && old_kept[k] == b;
                        if k < old_kept.len() - 1 {
                            assert(kept_before(pages@, old_kept[k] as int, old_kept[old_kept.len() - 1] as int));
                        }
                    }
                }
                kept.push(b);
                proof {
                    assert forall|a: int, c: int| 0 <= a < c < kept@.len() implies kept_before(
                        pages@,
                        #[trigger] kept@[a] as int,
                        #[trigger] kept@[c] as int,
                    ) by {
                        if c == kept@.len() - 1 && a < c - 1 {
                            assert(kept_before(pages@, old_kept[a] as int, old_kept[old_kept.len() - 1] as int));
                        }
                    }
                    assert forall|j: int|
                        0 <= j < n && page_live(pages@[j]) && !kept@.contains(j as usize) implies forall|k: int|
                        0 <= k < kept@.len() ==> kept_before(pages@, #[trigger] kept@[k] as int, j) by {
                        assert(!old_kept.contains(j as usize)) by {
                            if old_kept.contains(j as usize) {
                                let k = choose|k: int| 0 <= k < old_kept.len() && old_kept[k] == j as usize;
                                assert(kept@[k] == j as usize);
                            }
                        }
                        assert(j as usize != b) by {
                            assert(kept@[kept@.len() - 1] == b);
                        }
                        if old_kept.len() > 0 {
                            assert(kept_before(pages@, old_kept[old_kept.len() - 1] as int, j));
                        }
                        assert forall|k: int| 0 <= k < kept@.len() implies kept_before(
                            pages@,
                            #[trigger] kept@[k] as int,
                            j,
                        ) by {
                            if k < old_kept.len() {
                                assert(kept@[k] == old_kept[k]);
                            }
                        }
                    }
                }
            },
        }
    }
    kept
}

} // verus!
