//! Trusted registration metadata and the bounded managed-component worker pool's
//! decisions: which of the two fixed slots takes a job, in which order completions
//! are polled, and which samples a moving-window transform retains.
//!
//! Each slot has one job and one completion mailbox. There is no backlog behind a
//! busy slot; the channels and threads themselves belong to the host.
use crate::validation::MOVING_MEAN_IMPLEMENTATION;
use std::sync::atomic::{AtomicBool, AtomicUsize, Ordering};
use vstd::prelude::*;

verus! {

/// Number of fixed worker slots.
pub const WORKERS: usize = 2;

/// Registration-owned configuration metadata projected generically by the API.
#[derive(Clone, Copy, Debug)]
pub struct ComponentPropertyMetadata {
    /// Stable property identity within the implementation configuration.
    pub id: &'static str,
    /// Language-neutral scalar type.
    pub value_type: &'static str,
    /// Inclusive numeric minimum, when applicable.
    pub minimum: Option<i64>,
    /// Inclusive numeric maximum, when applicable.
    pub maximum: Option<i64>,
    /// Runtime lifecycle class selected by trusted registration.
    pub mutation_class: &'static str,
}

/// The moving-mean `window` property: an integer in 2..=64 whose change
/// reinitializes the component.
pub open spec fn is_window_property(p: ComponentPropertyMetadata) -> bool {
    &&& p.id@ == "window"@
    &&& p.value_type@ == "integer"@
    &&& p.minimum == Some(2i64)
    &&& p.maximum == Some(64i64)
    &&& p.mutation_class@ == "reinitialize"@
}

/// Property metadata for one registered implementation; an unregistered one has
/// none. The wire layer has no implementation-specific branch, so new registrations
/// need no new operation.
pub fn component_property_metadata(implementation: &str) -> (properties: Vec<ComponentPropertyMetadata>)
    ensures
        implementation@ == MOVING_MEAN_IMPLEMENTATION@ ==> properties@.len() == 1
            && is_window_property(properties@[0]),
        implementation@ != MOVING_MEAN_IMPLEMENTATION@ ==> properties@.len() == 0,
{
    let requested = implementation.to_owned();
    let registered = MOVING_MEAN_IMPLEMENTATION.to_owned();
    let mut properties: Vec<ComponentPropertyMetadata> = Vec::new();
    if requested == registered {
        proof {
            reveal_strlit("window");
            reveal_strlit("integer");
            reveal_strlit("reinitialize");
        }
        properties.push(
            ComponentPropertyMetadata {
                id: "window",
                value_type: "integer",
                minimum: Some(2),
                maximum: Some(64),
                mutation_class: "reinitialize",
            },
        );
    }
    properties
}

/// Trusted fixture gate proving both fixed worker slots entered managed Step work.
/// It is unavailable to component code and exists only for deterministic tests.
/// Its flags are shared with worker threads, so nothing is stated of the values a
/// read observes.
pub struct WorkerBarrier {
    enabled: AtomicBool,
    entered: AtomicUsize,
    released: AtomicBool,
}

impl WorkerBarrier {
    /// Create a disabled gate so initialization may finish before Step blocking.
    pub fn new() -> (barrier: Self) {
        WorkerBarrier {
            enabled: AtomicBool::new(false),
            entered: AtomicUsize::new(0),
            released: AtomicBool::new(false),
        }
    }

    /// Gate future Step work on the common worker boundary.
    pub fn enable(&self) {
        self.enabled.store(true, Ordering::Release);
    }

    /// Whether Step work is gated.
    pub fn is_enabled(&self) -> (enabled: bool) {
        self.enabled.load(Ordering::Acquire)
    }

    /// Count one arrival.
    pub fn arrive(&self) {
        self.entered.fetch_add(1, Ordering::AcqRel);
    }

    /// Arrivals so far.
    pub fn entered(&self) -> (count: usize) {
        self.entered.load(Ordering::Acquire)
    }

    /// Release gated workers during test cleanup.
    pub fn release(&self) {
        self.released.store(true, Ordering::Release);
    }

    /// Whether gated workers may continue.
    pub fn is_released(&self) -> (released: bool) {
        self.released.load(Ordering::Acquire)
    }
}

/// The slot at rotation `offset` from `cursor`.
pub open spec fn rotated(cursor: int, offset: int) -> int {
    (cursor + offset) % (WORKERS as int)
}

/// The first idle slot in rotation order from `cursor`, if any.
pub open spec fn first_idle(busy: Seq<bool>, cursor: int) -> Option<int> {
    if !busy[rotated(cursor, 0)] {
        Some(rotated(cursor, 0))
    } else if !busy[rotated(cursor, 1)] {
        Some(rotated(cursor, 1))
    } else {
        None
    }
}

/// Choose the slot for a new job: the first idle slot in rotation order starting
/// at `cursor`, or none when both are busy (there is no backlog).
pub fn idle_slot(busy: &Vec<bool>, cursor: usize) -> (slot: Option<usize>)
    requires
        busy@.len() == WORKERS,
        cursor < WORKERS,
    ensures
        match first_idle(busy@, cursor as int) {
            Some(i) => slot == Some(i as usize),
            None => slot is None,
        },
{
    let mut offset: usize = 0;
    while offset < WORKERS
        invariant
            busy@.len() == WORKERS,
            cursor < WORKERS,
            offset <= WORKERS,
            forall|k: int| 0 <= k < offset ==> busy@[#[trigger] rotated(cursor as int, k)],
        decreases WORKERS - offset,
    {
        let index = (cursor + offset) % WORKERS;
        if !busy[index] {
            return Some(index);
        }
        proof {
            assert(busy@[rotated(cursor as int, offset as int)]);
        }
        offset += 1;
    }
    proof {
        assert(busy@[rotated(cursor as int, 0)]);
        assert(busy@[rotated(cursor as int, 1)]);
    }
    None
}

/// The cursor after slot `index` took a job or delivered a completion: the next
/// slot in rotation.
pub fn advance_cursor(index: usize) -> (cursor: usize)
    requires
        index < WORKERS,
    ensures
        cursor == rotated(index as int, 1),
        cursor < WORKERS,
{
    (index + 1) % WORKERS
}

/// Poll order from `cursor`: each slot once, in rotation order.
pub fn poll_order(cursor: usize) -> (order: Vec<usize>)
    requires
        cursor < WORKERS,
    ensures
        order@.len() == WORKERS,
        forall|k: int| 0 <= k < WORKERS ==> order@[k] == rotated(cursor as int, k),
{
    let mut order: Vec<usize> = Vec::new();
    let mut offset: usize = 0;
    while offset < WORKERS
        invariant
            cursor < WORKERS,
            offset <= WORKERS,
            order@.len() == offset,
            forall|k: int| 0 <= k < offset ==> order@[k] == rotated(cursor as int, k),
        decreases WORKERS - offset,
    {
        order.push((cursor + offset) % WORKERS);
        offset += 1;
    }
    order
}

/// Samples kept when a new sample arrives: the newest `min(len, window - 1)`
/// previous samples followed by the new one.
pub open spec fn retained_window<T>(previous: Seq<T>, window: int, input: T) -> Seq<T> {
    let keep = if previous.len() < window - 1 {
        previous.len() as int
    } else {
        window - 1
    };
    previous.subrange(previous.len() - keep, previous.len() as int).push(input)
}

/// Slide a moving window by one sample. The result holds at most `window`
/// samples; the transform is ready exactly when it holds `window`.
pub fn slide_window<T: Copy>(previous: &Vec<T>, window: usize, input: T) -> (out: (Vec<T>, bool))
    requires
        1 <= window,
        previous@.len() <= window,
    ensures
        out.0@ == retained_window(previous@, window as int, input),
        out.0@.len() <= window,
        out.1 <==> out.0@.len() == window,
        out.0@.len() == if previous@.len() + 1 < window { previous@.len() + 1int } else { window as int },
        out.0@.last() == input,
        forall|k: int| 0 <= k < out.0@.len() - 1 ==> out.0@[k] == previous@[previous@.len() - (out.0@.len() - 1) + k],
{
    let keep = if previous.len() < window - 1 {
        previous.len()
    } else {
        window - 1
    };
    let start = previous.len() - keep;
    let mut values: Vec<T> = Vec::new();
    let mut i: usize = start;
    while i < previous.len()
        invariant
            start <= i <= previous@.len(),
            start == previous@.len() - keep,
            values@ == previous@.subrange(start as int, i as int),
        decreases previous@.len() - i,
    {
        values.push(previous[i]);
        proof {
            assert(values@ =~= previous@.subrange(start as int, i + 1));
        }
        i += 1;
    }
    values.push(input);
    proof {
        law_slide_window(previous@, window as int, input);
    }
    let ready = values.len() == window;
    (values, ready)
}

/// Sliding keeps the newest samples: the result has `min(len + 1, window)` samples,
/// ends with the new sample, and before it holds the last `min(len, window - 1)`
/// previous samples in their order.
pub proof fn law_slide_window<T>(previous: Seq<T>, window: int, input: T)
    requires
        1 <= window,
        previous.len() <= window,
    ensures
        ({
            let out = retained_window(previous, window, input);
            &&& out.len() == if previous.len() + 1 < window { previous.len() + 1int } else { window }
            &&& out.last() == input
            &&& forall|k: int| 0 <= k < out.len() - 1 ==> out[k] == previous[previous.len() - (out.len() - 1) + k]
        }),
{
}

/// The window reached by sliding each of `inputs` in turn into an initially empty
/// window.
pub open spec fn filled_window<T>(window: int, inputs: Seq<T>) -> Seq<T>
    decreases inputs.len(),
{
    if inputs.len() == 0 {
        Seq::empty()
    } else {
        retained_window(filled_window(window, inputs.drop_last()), window, inputs.last())
    }
}

/// Starting from no samples, each new sample grows the window by one until it
/// holds `window` samples, so after `window` samples the transform is ready and
/// stays full.
pub proof fn law_window_fills<T>(window: int, inputs: Seq<T>)
    requires
        1 <= window,
    ensures
        filled_window(window, inputs).len() == if inputs.len() < window { inputs.len() as int } else { window },
        inputs.len() >= window ==> filled_window(window, inputs).len() == window,
    decreases inputs.len(),
{
    if inputs.len() > 0 {
        law_window_fills(window, inputs.drop_last());
        law_slide_window(filled_window(window, inputs.drop_last()), window, inputs.last());
    }
}

} // verus!
