use std::cell::Cell;
use std::rc::Rc;

use map_in_place::engine::try_filter_map;

// An element that reports its own destruction on a shared counter.
struct Counted {
    id: u32,
    drops: Rc<Cell<u32>>,
}

impl Drop for Counted {
    fn drop(&mut self) {
        self.drops.set(self.drops.get() + 1);
    }
}

fn counted(id: u32, drops: &Rc<Cell<u32>>) -> Counted {
    Counted { id, drops: Rc::clone(drops) }
}

// No leak and no double destruction under abnormal termination: when the
// transformation fails on the k-th element, the k outputs already produced
// and the not-yet-visited inputs are each destroyed exactly once, and the
// abnormal outcome reaches the caller.
#[test]
fn abnormal_termination_cleans_up() {
    let drops: Rc<Cell<u32>> = Rc::new(Cell::new(0));
    let input: Vec<Counted> = (0..5).map(|id| counted(id, &drops)).collect();
    let mut constructed = 5;

    let drops_for_f = Rc::clone(&drops);
    let result = try_filter_map(input, move |a: Counted| {
        if a.id == 2 {
            Err("boom")
        } else {
            // Two outputs are produced before the failure (ids 0 and 1).
            Ok(Some(counted(a.id + 100, &drops_for_f)))
        }
    });
    constructed += 2;

    assert_eq!(result.err(), Some("boom"));
    // Every constructed element was destroyed exactly once: the five
    // inputs (ids 0, 1 and 2 inside the transformation, ids 3 and 4 by
    // the engine's cleanup) and the two partial outputs.
    assert_eq!(drops.get(), constructed);
}

// A pass that completes normally keeps every present result, in order,
// and destroys exactly the consumed inputs and nothing else.
#[test]
fn fallible_pass_completes_normally() {
    let drops: Rc<Cell<u32>> = Rc::new(Cell::new(0));
    let input: Vec<Counted> = (0..4).map(|id| counted(id, &drops)).collect();

    let result: Result<Vec<u32>, &str> = try_filter_map(input, |a: Counted| {
        if a.id % 2 == 0 {
            Ok(Some(a.id * 10))
        } else {
            Ok(None)
        }
    });

    assert_eq!(result.ok(), Some(vec![0, 20]));
    assert_eq!(drops.get(), 4);
}
