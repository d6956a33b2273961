//! Double-buffered 16-key keypad state. The engine never mutates the key
//! flags itself: once per frame the host pushes a fresh snapshot, which
//! rotates the current frame into the previous one. The two snapshots let the
//! blocking key-wait opcode detect transitions.
//!
//! The key-wait opcode of this interpreter triggers on a key *press*: a key
//! that is down in the current frame and was up in the previous one. The
//! opposite query (a release, down before and up now) is offered as well.

use vstd::prelude::*;

verus! {

/// 16 boolean "down" flags for the previous and the current frame.
#[derive(Debug, Clone, Copy)]
pub struct Keypad {
    pub previous_frame_keys: [bool; 16],
    pub current_frame_keys: [bool; 16],
}

/// Key `k` was pressed between the two snapshots: up before, down now.
pub open spec fn press_edge(prev: Seq<bool>, curr: Seq<bool>, k: int) -> bool {
    !prev[k] && curr[k]
}

/// Key `k` was released between the two snapshots: down before, up now.
pub open spec fn release_edge(prev: Seq<bool>, curr: Seq<bool>, k: int) -> bool {
    prev[k] && !curr[k]
}

/// The lowest key index at or above `k` that was pressed between the two
/// snapshots, if any.
pub open spec fn spec_first_pressed_from(prev: Seq<bool>, curr: Seq<bool>, k: int) -> Option<u8>
    decreases 16 - k,
{
    if k < 0 || k >= 16 {
        None
    } else if press_edge(prev, curr, k) {
        Some(k as u8)
    } else {
        spec_first_pressed_from(prev, curr, k + 1)
    }
}

/// The lowest key index that was pressed between the two snapshots, if any.
pub open spec fn spec_first_pressed(prev: Seq<bool>, curr: Seq<bool>) -> Option<u8> {
    spec_first_pressed_from(prev, curr, 0)
}

/// The lowest key index at or above `k` that was released between the two
/// snapshots, if any.
pub open spec fn spec_first_released_from(prev: Seq<bool>, curr: Seq<bool>, k: int) -> Option<u8>
    decreases 16 - k,
{
    if k < 0 || k >= 16 {
        None
    } else if release_edge(prev, curr, k) {
        Some(k as u8)
    } else {
        spec_first_released_from(prev, curr, k + 1)
    }
}

/// The lowest key index that was released between the two snapshots, if any.
pub open spec fn spec_first_released(prev: Seq<bool>, curr: Seq<bool>) -> Option<u8> {
    spec_first_released_from(prev, curr, 0)
}

/// The edge queries are deterministic and scan in increasing key order: a
/// `Some` answer is a qualifying transition and every lower index holds none,
/// and a `None` answer means no key transitioned at all.
pub proof fn lemma_first_pressed_is_lowest(prev: Seq<bool>, curr: Seq<bool>)
    ensures
        match spec_first_pressed(prev, curr) {
            Some(k) => 0 <= k < 16 && press_edge(prev, curr, k as int) && (forall|j: int|
                0 <= j < k ==> !press_edge(prev, curr, j)),
            None => forall|j: int| 0 <= j < 16 ==> !press_edge(prev, curr, j),
        },
{
    lemma_first_pressed_from_is_lowest(prev, curr, 0);
}

proof fn lemma_first_pressed_from_is_lowest(prev: Seq<bool>, curr: Seq<bool>, k: int)
    requires
        0 <= k <= 16,
    ensures
        match spec_first_pressed_from(prev, curr, k) {
            Some(r) => k <= r < 16 && press_edge(prev, curr, r as int) && (forall|j: int|
                k <= j < r ==> !press_edge(prev, curr, j)),
            None => forall|j: int| k <= j < 16 ==> !press_edge(prev, curr, j),
        },
    decreases 16 - k,
{
    if k < 16 && !press_edge(prev, curr, k) {
        lemma_first_pressed_from_is_lowest(prev, curr, k + 1);
    }
}

/// The release query is deterministic and scans in increasing key order as
/// well: a `Some` answer is a release and every lower index holds none, and
/// a `None` answer means no key was released at all.
pub proof fn lemma_first_released_is_lowest(prev: Seq<bool>, curr: Seq<bool>)
    ensures
        match spec_first_released(prev, curr) {
            Some(k) => 0 <= k < 16 && release_edge(prev, curr, k as int) && (forall|j: int|
                0 <= j < k ==> !release_edge(prev, curr, j)),
            None => forall|j: int| 0 <= j < 16 ==> !release_edge(prev, curr, j),
        },
{
    lemma_first_released_from_is_lowest(prev, curr, 0);
}

proof fn lemma_first_released_from_is_lowest(prev: Seq<bool>, curr: Seq<bool>, k: int)
    requires
        0 <= k <= 16,
    ensures
        match spec_first_released_from(prev, curr, k) {
            Some(r) => k <= r < 16 && release_edge(prev, curr, r as int) && (forall|j: int|
                k <= j < r ==> !release_edge(prev, curr, j)),
            None => forall|j: int| k <= j < 16 ==> !release_edge(prev, curr, j),
        },
    decreases 16 - k,
{
    if k < 16 && !release_edge(prev, curr, k) {
        lemma_first_released_from_is_lowest(prev, curr, k + 1);
    }
}

impl Default for Keypad {
    /// A keypad with every key up in both snapshots.
    fn default() -> (r: Self)
        ensures
            r.previous_frame_keys@ == Seq::new(16, |k: int| false),
            r.current_frame_keys@ == Seq::new(16, |k: int| false),
    {
        let r = Keypad { previous_frame_keys: [false; 16], current_frame_keys: [false; 16] };
        proof {
            assert(r.previous_frame_keys@ =~= Seq::new(16, |k: int| false));
            assert(r.current_frame_keys@ =~= Seq::new(16, |k: int| false));
        }
        r
    }
}

impl Keypad {
    /// Rotate in a fresh frame snapshot: the current frame becomes the
    /// previous one and the supplied snapshot becomes the current one.
    pub fn update_keys(&mut self, current_frame_keys: [bool; 16])
        ensures
            final(self).previous_frame_keys == old(self).current_frame_keys,
            final(self).current_frame_keys == current_frame_keys,
    {
        self.previous_frame_keys = self.current_frame_keys;
        self.current_frame_keys = current_frame_keys;
    }

    /// The lowest-index key that was pressed this frame (up in the previous
    /// snapshot, down in the current one), if any key was.
    pub fn first_pressed_keypress(&self) -> (r: Option<usize>)
        ensures
            match r {
                Some(k) => k < 16 && spec_first_pressed(
                    self.previous_frame_keys@,
                    self.current_frame_keys@,
                ) == Some(k as u8),
                None => spec_first_pressed(
                    self.previous_frame_keys@,
                    self.current_frame_keys@,
                ) is None,
            },
    {
        let ghost prev = self.previous_frame_keys@;
        let ghost curr = self.current_frame_keys@;
        let mut k: usize = 0;
        while k < 16
            invariant
                0 <= k <= 16,
                prev == self.previous_frame_keys@,
                curr == self.current_frame_keys@,
                spec_first_pressed(prev, curr) == spec_first_pressed_from(prev, curr, k as int),
            decreases 16 - k,
        {
            if !self.previous_frame_keys[k] && self.current_frame_keys[k] {
                assert(spec_first_pressed_from(prev, curr, k as int) == Some(k as u8));
                return Some(k);
            }
            proof {
                assert(spec_first_pressed_from(prev, curr, k as int) == spec_first_pressed_from(
                    prev,
                    curr,
                    k as int + 1,
                ));
            }
            k = k + 1;
        }
        None
    }

    /// The lowest-index key that was released this frame (down in the
    /// previous snapshot, up in the current one), if any key was.
    pub fn first_released_keypress(&self) -> (r: Option<usize>)
        ensures
            match r {
                Some(k) => k < 16 && spec_first_released(
                    self.previous_frame_keys@,
                    self.current_frame_keys@,
                ) == Some(k as u8),
                None => spec_first_released(
                    self.previous_frame_keys@,
                    self.current_frame_keys@,
                ) is None,
            },
    {
        let ghost prev = self.previous_frame_keys@;
        let ghost curr = self.current_frame_keys@;
        let mut k: usize = 0;
        while k < 16
            invariant
                0 <= k <= 16,
                prev == self.previous_frame_keys@,
                curr == self.current_frame_keys@,
                spec_first_released(prev, curr) == spec_first_released_from(prev, curr, k as int),
            decreases 16 - k,
        {
            if self.previous_frame_keys[k] && !self.current_frame_keys[k] {
                assert(spec_first_released_from(prev, curr, k as int) == Some(k as u8));
                return Some(k);
            }
            proof {
                assert(spec_first_released_from(prev, curr, k as int) == spec_first_released_from(
                    prev,
                    curr,
                    k as int + 1,
                ));
            }
            k = k + 1;
        }
        None
    }
}

} // verus!
