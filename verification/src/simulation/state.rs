//! The simulation state and its bookkeeping.
use vstd::prelude::*;
use crate::fixed::lemma_hypot_range;
use crate::fixed::LIMIT;
use crate::simulation::Car;
use crate::simulation::CarId;
use crate::text::owned_text;

verus! {

/// All cars of a run with the clock and the population counters.
pub struct SimulationState {
    /// The cars, in the order in which they were spawned.
    pub cars: Vec<Car>,
    pub time: i64,
    pub dt: i64,
    pub total_spawned: u32,
    pub active_cars: u32,
}

/// No two cars of the sequence share an id.
pub open spec fn ids_unique(cars: Seq<Car>) -> bool {
    forall|i: int, j: int| 0 <= i < j < cars.len() ==> cars[i].id != cars[j].id
}

/// Some car of the sequence has the id.
pub open spec fn has_id(cars: Seq<Car>, id: CarId) -> bool {
    exists|i: int| 0 <= i < cars.len() && (#[trigger] cars[i]).id == id
}

/// The index of the first car from index `i` on with the id, or the
/// length of the sequence.
pub open spec fn position_of(cars: Seq<Car>, id: CarId, i: int) -> int
    decreases cars.len() - i,
{
    if i < 0 || i >= cars.len() {
        cars.len() as int
    } else if cars[i].id == id {
        i
    } else {
        position_of(cars, id, i + 1)
    }
}

/// Whether a car has the behavior and is not yet flagged for exit.
pub open spec fn awaits_exit_flag(car: Car, behavior: Seq<char>) -> bool {
    car.behavior_type@ == behavior && !car.marked_for_exit
}

/// The index of the first car from index `i` on that has the behavior
/// and is not yet flagged for exit, or the length of the sequence.
pub open spec fn first_unflagged(cars: Seq<Car>, behavior: Seq<char>, i: int) -> int
    decreases cars.len() - i,
{
    if i < 0 || i >= cars.len() {
        cars.len() as int
    } else if awaits_exit_flag(cars[i], behavior) {
        i
    } else {
        first_unflagged(cars, behavior, i + 1)
    }
}

/// The first car that awaits the flag is a car that awaits it, no car
/// before it does, and where the index is the length of the sequence no
/// car from `i` on awaits the flag.
pub proof fn lemma_first_unflagged(cars: Seq<Car>, behavior: Seq<char>, i: int)
    requires
        0 <= i <= cars.len(),
    ensures
        i <= first_unflagged(cars, behavior, i) <= cars.len(),
        first_unflagged(cars, behavior, i) < cars.len() ==> awaits_exit_flag(
            cars[first_unflagged(cars, behavior, i)],
            behavior,
        ),
        forall|j: int|
            i <= j < first_unflagged(cars, behavior, i) ==> !awaits_exit_flag(
                #[trigger] cars[j],
                behavior,
            ),
        (forall|j: int| i <= j < cars.len() ==> !awaits_exit_flag(#[trigger] cars[j], behavior))
            ==> first_unflagged(cars, behavior, i) == cars.len(),
    decreases cars.len() - i,
{
    if i < cars.len() {
        lemma_first_unflagged(cars, behavior, i + 1);
    }
}

/// Flagging takes the flag: where exactly one car of the profile is not
/// yet flagged, flagging it sets its flag and stamps it with the time,
/// and a second search finds no car to flag.
pub proof fn lemma_flag_is_taken(cars: Seq<Car>, behavior: Seq<char>, now: i64)
    requires
        first_unflagged(cars, behavior, 0) < cars.len(),
        forall|j: int|
            0 <= j < cars.len() && j != first_unflagged(cars, behavior, 0) ==> !awaits_exit_flag(
                #[trigger] cars[j],
                behavior,
            ),
    ensures
        ({
            let k = first_unflagged(cars, behavior, 0);
            let after = cars.update(k, cars[k].flagged_for_exit(now));
            &&& after[k].marked_for_exit
            &&& after[k].exit_time == Some(now)
            &&& first_unflagged(after, behavior, 0) == after.len()
        }),
{
    lemma_first_unflagged(cars, behavior, 0);
    let k = first_unflagged(cars, behavior, 0);
    let after = cars.update(k, cars[k].flagged_for_exit(now));
    assert forall|j: int| 0 <= j < after.len() implies !awaits_exit_flag(
        #[trigger] after[j],
        behavior,
    ) by {
        if j != k {
            assert(after[j] == cars[j]);
        }
    }
    lemma_first_unflagged(after, behavior, 0);
}

/// The number of cars among the first `n` with the behavior profile.
pub open spec fn count_behavior(cars: Seq<Car>, behavior: Seq<char>, n: int) -> int
    decreases n,
{
    if n <= 0 {
        0
    } else {
        count_behavior(cars, behavior, n - 1) + if cars[n - 1].behavior_type@ == behavior {
            1int
        } else {
            0int
        }
    }
}

/// A count over a prefix lies between zero and the length of the
/// prefix, and is zero where no car of the prefix has the profile.
pub proof fn lemma_count_behavior(cars: Seq<Car>, behavior: Seq<char>, n: int)
    requires
        0 <= n,
    ensures
        0 <= count_behavior(cars, behavior, n) <= n,
        (forall|j: int| 0 <= j < n ==> (#[trigger] cars[j]).behavior_type@ != behavior)
            ==> count_behavior(cars, behavior, n) == 0,
    decreases n,
{
    if n > 0 {
        lemma_count_behavior(cars, behavior, n - 1);
    }
}

/// The largest speed among the first `n` cars; zero for none.
pub open spec fn max_speed(cars: Seq<Car>, n: int) -> int
    decreases n,
{
    if n <= 0 {
        0
    } else {
        let rest = max_speed(cars, n - 1);
        let own = cars[n - 1].speed_spec();
        if own > rest {
            own
        } else {
            rest
        }
    }
}

/// No car among the first `n` is faster than the largest speed, which
/// is not negative and within the limit.
pub proof fn lemma_max_speed(cars: Seq<Car>, n: int)
    requires
        0 <= n <= cars.len(),
    ensures
        0 <= max_speed(cars, n) <= LIMIT,
        forall|j: int| 0 <= j < n ==> 0 <= (#[trigger] cars[j]).speed_spec() <= max_speed(cars, n),
    decreases n,
{
    if n > 0 {
        lemma_max_speed(cars, n - 1);
        lemma_hypot_range(cars[n - 1].velocity.x as int, cars[n - 1].velocity.y as int);
    }
}

/// The bucket of a speed when `[0, top]` is cut into `buckets` equal
/// parts; the top speed falls into the last bucket.
pub open spec fn bucket_of(speed: int, top: int, buckets: int) -> int {
    let raw = (speed * buckets) / top;
    if raw >= buckets {
        buckets - 1
    } else {
        raw
    }
}

/// The number of cars among the first `n` whose speed falls into the
/// bucket.
pub open spec fn count_in_bucket(cars: Seq<Car>, bucket: int, top: int, buckets: int, n: int) -> int
    decreases n,
{
    if n <= 0 {
        0
    } else {
        count_in_bucket(cars, bucket, top, buckets, n - 1) + if bucket_of(
            cars[n - 1].speed_spec(),
            top,
            buckets,
        ) == bucket {
            1int
        } else {
            0int
        }
    }
}

/// A bucket count over a prefix is at most the length of the prefix.
pub proof fn lemma_count_in_bucket(cars: Seq<Car>, bucket: int, top: int, buckets: int, n: int)
    requires
        0 <= n,
    ensures
        0 <= count_in_bucket(cars, bucket, top, buckets, n) <= n,
    decreases n,
{
    if n > 0 {
        lemma_count_in_bucket(cars, bucket, top, buckets, n - 1);
    }
}

/// The index of the first entry from index `i` on with the name, or the
/// length of the list.
pub open spec fn entry_index(list: Seq<(String, usize)>, name: Seq<char>, i: int) -> int
    decreases list.len() - i,
{
    if i < 0 || i >= list.len() {
        list.len() as int
    } else if list[i].0@ == name {
        i
    } else {
        entry_index(list, name, i + 1)
    }
}

/// What a list of counts by behavior says of the first `n` cars: no
/// name occurs twice, each entry counts the cars of its profile and
/// counts at least one, and every car's profile has an entry.
pub open spec fn counts_behaviors(list: Seq<(String, usize)>, cars: Seq<Car>, n: int) -> bool {
    &&& forall|a: int, b: int| 0 <= a < b < list.len() ==> list[a].0@ != list[b].0@
    &&& forall|e: int|
        0 <= e < list.len() ==> (#[trigger] list[e]).1 == count_behavior(cars, list[e].0@, n)
            && list[e].1 >= 1
    &&& forall|j: int|
        0 <= j < n ==> entry_index(list, (#[trigger] cars[j]).behavior_type@, 0) < list.len()
}

/// An entry index is the index of an entry with the name, or the length
/// of the list where no entry from `i` on has the name.
pub proof fn lemma_entry_index(list: Seq<(String, usize)>, name: Seq<char>, i: int)
    requires
        0 <= i,
    ensures
        i <= entry_index(list, name, i) || list.len() <= i,
        entry_index(list, name, i) < list.len() ==> list[entry_index(list, name, i)].0@ == name,
        entry_index(list, name, i) >= list.len() ==> forall|e: int|
            i <= e < list.len() ==> (#[trigger] list[e]).0@ != name,
        entry_index(list, name, i) <= list.len() || list.len() <= i,
    decreases list.len() - i,
{
    if i < list.len() {
        lemma_entry_index(list, name, i + 1);
    }
}

/// An entry that exists in a list is found in the list with one more
/// entry behind it.
pub proof fn lemma_entry_index_push(
    list: Seq<(String, usize)>,
    extra: (String, usize),
    name: Seq<char>,
    i: int,
)
    requires
        0 <= i,
    ensures
        entry_index(list, name, i) < list.len() ==> entry_index(list.push(extra), name, i)
            == entry_index(list, name, i),
        extra.0@ == name && i <= list.len() ==> entry_index(list.push(extra), name, i)
            <= list.len(),
    decreases list.len() - i,
{
    let longer = list.push(extra);
    if i < list.len() {
        assert(longer[i] == list[i]);
        lemma_entry_index_push(list, extra, name, i + 1);
    } else if i == list.len() {
        assert(longer[i] == extra);
    }
}

/// An entry index does not change where an entry's count changes.
pub proof fn lemma_entry_index_recount(
    list: Seq<(String, usize)>,
    e: int,
    count: usize,
    name: Seq<char>,
    i: int,
)
    requires
        0 <= i,
        0 <= e < list.len(),
    ensures
        entry_index(list.update(e, (list[e].0, count)), name, i) == entry_index(list, name, i),
    decreases list.len() - i,
{
    let changed = list.update(e, (list[e].0, count));
    if i < list.len() {
        assert(changed[i].0@ == list[i].0@);
        lemma_entry_index_recount(list, e, count, name, i + 1);
    }
}

impl SimulationState {
    /// The bookkeeping invariant: the active counter is the number of
    /// cars, no more cars exist than were ever spawned, and ids are unique.
    pub open spec fn wf(&self) -> bool {
        &&& self.active_cars == self.cars@.len()
        &&& self.cars@.len() <= self.total_spawned
        &&& ids_unique(self.cars@)
    }

    /// Every car carries lanes of a road with `lane_count` lanes and a
    /// lane change progress between 0 and 1.
    pub open spec fn cars_sound(&self, lane_count: u32) -> bool {
        forall|i: int|
            0 <= i < self.cars@.len() ==> (#[trigger] self.cars@[i]).lanes_within(lane_count)
                && self.cars@[i].progress_in_range()
    }

    /// An empty state at time zero with the given timestep.
    pub fn new(dt: i64) -> (r: Self)
        ensures
            r.cars@.len() == 0,
            r.time == 0,
            r.dt == dt,
            r.total_spawned == 0,
            r.active_cars == 0,
            r.wf(),
    {
        SimulationState { cars: Vec::new(), time: 0, dt, total_spawned: 0, active_cars: 0 }
    }

    /// Appends a car and counts it as spawned and active.
    pub fn add_car(&mut self, car: Car)
        requires
            old(self).total_spawned < u32::MAX,
            old(self).active_cars < u32::MAX,
        ensures
            final(self).cars@ == old(self).cars@.push(car),
            final(self).total_spawned == old(self).total_spawned + 1,
            final(self).active_cars == old(self).active_cars + 1,
            final(self).time == old(self).time,
            final(self).dt == old(self).dt,
            old(self).wf() && !has_id(old(self).cars@, car.id) ==> final(self).wf(),
    {
        self.cars.push(car);
        self.total_spawned += 1;
        self.active_cars += 1;
        proof {
            if old(self).wf() && !has_id(old(self).cars@, car.id) {
                assert forall|i: int, j: int| 0 <= i < j < self.cars@.len() implies self.cars@[i].id
                    != self.cars@[j].id by {
                    if j == old(self).cars@.len() {
                        assert(old(self).cars@[i].id != car.id);
                    }
                }
            }
        }
    }

    /// The index of the first car with the id.
    pub fn index_of(&self, id: CarId) -> (r: Option<usize>)
        ensures
            match r {
                Some(k) => k == position_of(self.cars@, id, 0) && k < self.cars@.len()
                    && self.cars@[k as int].id == id,
                None => position_of(self.cars@, id, 0) == self.cars@.len() && !has_id(
                    self.cars@,
                    id,
                ),
            },
    {
        let mut i: usize = 0;
        while i < self.cars.len()
            invariant
                i <= self.cars.len(),
                position_of(self.cars@, id, 0) == position_of(self.cars@, id, i as int),
                forall|j: int| 0 <= j < i ==> (#[trigger] self.cars@[j]).id != id,
            decreases self.cars.len() - i,
        {
            if self.cars[i].id == id {
                return Some(i);
            }
            i += 1;
        }
        None
    }

    /// Removes the first car with the id, if there is one, and counts
    /// one active car less.
    pub fn remove_car(&mut self, id: CarId)
        ensures
            has_id(old(self).cars@, id) ==> {
                let k = position_of(old(self).cars@, id, 0);
                &&& 0 <= k < old(self).cars@.len()
                &&& old(self).cars@[k].id == id
                &&& final(self).cars@ == old(self).cars@.remove(k)
                &&& final(self).active_cars == if old(self).active_cars > 0 {
                    old(self).active_cars - 1
                } else {
                    0
                }
            },
            !has_id(old(self).cars@, id) ==> final(self).cars@ == old(self).cars@
                && final(self).active_cars == old(self).active_cars,
            final(self).total_spawned == old(self).total_spawned,
            final(self).time == old(self).time,
            final(self).dt == old(self).dt,
            old(self).wf() ==> final(self).wf() && !has_id(final(self).cars@, id),
    {
        match self.index_of(id) {
            Some(pos) => {
                self.cars.remove(pos);
                self.active_cars = if self.active_cars > 0 {
                    self.active_cars - 1
                } else {
                    0
                };
                proof {
                    let before = old(self).cars@;
                    let after = self.cars@;
                    assert(after == before.remove(pos as int));
                    if old(self).wf() {
                        assert forall|i: int, j: int| 0 <= i < j < after.len() implies after[i].id
                            != after[j].id by {
                            let bi = if i < pos { i } else { i + 1 };
                            let bj = if j < pos { j } else { j + 1 };
                            assert(after[i] == before[bi]);
                            assert(after[j] == before[bj]);
                        }
                        assert forall|i: int| 0 <= i < after.len() implies (#[trigger] after[i]).id
                            != id by {
                            let bi = if i < pos { i } else { i + 1 };
                            assert(after[i] == before[bi]);
                            if bi < pos {
                                assert(before[bi].id != before[pos as int].id);
                            } else {
                                assert(before[pos as int].id != before[bi].id);
                            }
                        }
                    }
                }
            },
            None => {},
        }
    }

    /// The first car with the id.
    pub fn get_car(&self, id: CarId) -> (r: Option<&Car>)
        ensures
            match r {
                Some(car) => has_id(self.cars@, id) && *car == self.cars@[position_of(
                    self.cars@,
                    id,
                    0,
                )] && car.id == id,
                None => !has_id(self.cars@, id),
            },
    {
        match self.index_of(id) {
            Some(pos) => Some(&self.cars[pos]),
            None => None,
        }
    }

    /// Records the current speed of every car in its history.
    pub fn update_car_speeds(&mut self)
        ensures
            final(self).cars@.len() == old(self).cars@.len(),
            forall|i: int|
                0 <= i < old(self).cars@.len() ==> {
                    let before = old(self).cars@[i];
                    let after = #[trigger] final(self).cars@[i];
                    &&& after.speed_history@ == seq![
                        before.speed_history@[1],
                        before.speed_history@[2],
                        before.speed_spec() as i64,
                    ]
                    &&& after.id == before.id
                    &&& after.position == before.position
                    &&& after.velocity == before.velocity
                    &&& after.current_lane == before.current_lane
                    &&& after.target_lane == before.target_lane
                    &&& after.lane_change_progress == before.lane_change_progress
                    &&& after.behavior == before.behavior
                    &&& after.behavior_type == before.behavior_type
                    &&& after.marked_for_exit == before.marked_for_exit
                    &&& after.exit_time == before.exit_time
                },
            final(self).time == old(self).time,
            final(self).dt == old(self).dt,
            final(self).total_spawned == old(self).total_spawned,
            final(self).active_cars == old(self).active_cars,
            old(self).wf() ==> final(self).wf(),
    {
        let mut i: usize = 0;
        while i < self.cars.len()
            invariant
                i <= self.cars.len(),
                self.cars@.len() == old(self).cars@.len(),
                self.time == old(self).time,
                self.dt == old(self).dt,
                self.total_spawned == old(self).total_spawned,
                self.active_cars == old(self).active_cars,
                forall|j: int| i <= j < self.cars@.len() ==> self.cars@[j] == old(self).cars@[j],
                forall|j: int| 0 <= j < self.cars@.len() ==> (#[trigger] self.cars@[j]).id == old(self).cars@[j].id,
                forall|j: int|
                    0 <= j < i ==> {
                        let before = old(self).cars@[j];
                        let after = #[trigger] self.cars@[j];
                        &&& after.speed_history@ == seq![
                            before.speed_history@[1],
                            before.speed_history@[2],
                            before.speed_spec() as i64,
                        ]
                        &&& after.id == before.id
                        &&& after.position == before.position
                        &&& after.velocity == before.velocity
                        &&& after.current_lane == before.current_lane
                        &&& after.target_lane == before.target_lane
                        &&& after.lane_change_progress == before.lane_change_progress
                        &&& after.behavior == before.behavior
                        &&& after.behavior_type == before.behavior_type
                        &&& after.marked_for_exit == before.marked_for_exit
                        &&& after.exit_time == before.exit_time
                    },
            decreases self.cars.len() - i,
        {
            self.cars[i].update_speed_history();
            i += 1;
        }
    }

    /// Flags the first car of the behavior profile that is not yet
    /// flagged for exit, and stamps it with the current time. Returns
    /// whether there was such a car.
    pub fn mark_car_for_exit(&mut self, behavior_type: &str) -> (found: bool)
        ensures
            ({
                let k = first_unflagged(old(self).cars@, behavior_type@, 0);
                &&& found == (k < old(self).cars@.len())
                &&& found ==> final(self).cars@ == old(self).cars@.update(
                    k,
                    old(self).cars@[k].flagged_for_exit(old(self).time),
                )
                &&& !found ==> final(self).cars@ == old(self).cars@
            }),
            final(self).time == old(self).time,
            final(self).dt == old(self).dt,
            final(self).total_spawned == old(self).total_spawned,
            final(self).active_cars == old(self).active_cars,
            old(self).wf() ==> final(self).wf(),
    {
        let wanted = owned_text(behavior_type);
        let now = self.time;
        let mut i: usize = 0;
        while i < self.cars.len()
            invariant
                i <= self.cars.len(),
                wanted@ == behavior_type@,
                now == old(self).time,
                *self == *old(self),
                first_unflagged(self.cars@, behavior_type@, 0) == first_unflagged(
                    self.cars@,
                    behavior_type@,
                    i as int,
                ),
            decreases self.cars.len() - i,
        {
            if self.cars[i].behavior_type == wanted && !self.cars[i].marked_for_exit {
                self.cars[i].marked_for_exit = true;
                self.cars[i].exit_time = Some(now);
                proof {
                    assert(self.cars@ =~= old(self).cars@.update(
                        i as int,
                        old(self).cars@[i as int].flagged_for_exit(now),
                    ));
                    if old(self).wf() {
                        assert forall|a: int, b: int| 0 <= a < b < self.cars@.len() implies self.cars@[a].id
                            != self.cars@[b].id by {
                            assert(self.cars@[a].id == old(self).cars@[a].id);
                            assert(self.cars@[b].id == old(self).cars@[b].id);
                        }
                    }
                }
                return true;
            }
            i += 1;
        }
        false
    }

    /// The first car with the id, for changing it in place.
    pub fn get_car_mut(&mut self, id: CarId) -> (r: Option<&mut Car>)
        ensures
            match r {
                Some(car) => {
                    let k = position_of(old(self).cars@, id, 0);
                    &&& has_id(old(self).cars@, id)
                    &&& 0 <= k < old(self).cars@.len()
                    &&& *car == old(self).cars@[k]
                    &&& final(self).cars@ == old(self).cars@.update(k, *final(car))
                },
                None => !has_id(old(self).cars@, id) && final(self).cars@ == old(self).cars@,
            },
            final(self).time == old(self).time,
            final(self).dt == old(self).dt,
            final(self).total_spawned == old(self).total_spawned,
            final(self).active_cars == old(self).active_cars,
    {
        match self.index_of(id) {
            Some(pos) => Some(&mut self.cars[pos]),
            None => None,
        }
    }

    /// Index of the entry with the name.
    fn find_entry(list: &Vec<(String, usize)>, name: &String) -> (r: Option<usize>)
        ensures
            match r {
                Some(e) => e == entry_index(list@, name@, 0) && e < list@.len() && list@[e as int].0@
                    == name@,
                None => entry_index(list@, name@, 0) >= list@.len() && forall|e: int|
                    0 <= e < list@.len() ==> (#[trigger] list@[e]).0@ != name@,
            },
    {
        proof {
            lemma_entry_index(list@, name@, 0);
        }
        let mut i: usize = 0;
        while i < list.len()
            invariant
                i <= list.len(),
                entry_index(list@, name@, 0) == entry_index(list@, name@, i as int),
            decreases list.len() - i,
        {
            if list[i].0 == *name {
                return Some(i);
            }
            i += 1;
        }
        None
    }

    /// The number of cars of each behavior profile that occurs, in the
    /// order in which the profiles first occur among the cars.
    pub fn get_behavior_counts(&self) -> (r: Vec<(String, usize)>)
        ensures
            counts_behaviors(r@, self.cars@, self.cars@.len() as int),
    {
        let mut counts: Vec<(String, usize)> = Vec::new();
        let mut i: usize = 0;
        while i < self.cars.len()
            invariant
                i <= self.cars.len(),
                counts_behaviors(counts@, self.cars@, i as int),
            decreases self.cars.len() - i,
        {
            let ghost before = counts@;
            let ghost name = self.cars@[i as int].behavior_type@;
            match Self::find_entry(&counts, &self.cars[i].behavior_type) {
                Some(e) => {
                    proof {
                        lemma_count_behavior(self.cars@, name, i as int);
                    }
                    let bumped: usize = counts[e].1 + 1;
                    counts[e].1 = bumped;
                    proof {
                        assert(counts@ =~= before.update(e as int, (before[e as int].0, bumped)));
                        assert forall|a: int, b: int| 0 <= a < b < counts@.len() implies counts@[a].0@
                            != counts@[b].0@ by {
                            assert(counts@[a].0@ == before[a].0@);
                            assert(counts@[b].0@ == before[b].0@);
                        }
                        assert forall|x: int| 0 <= x < counts@.len() implies (
                        #[trigger] counts@[x]).1 == count_behavior(
                            self.cars@,
                            counts@[x].0@,
                            i as int + 1,
                        ) && counts@[x].1 >= 1 by {
                            assert(before[x].1 == count_behavior(self.cars@, before[x].0@, i as int));
                            if x != e {
                                if x < e {
                                    assert(before[x].0@ != before[e as int].0@);
                                } else {
                                    assert(before[e as int].0@ != before[x].0@);
                                }
                            }
                        }
                        assert forall|j: int| 0 <= j < i + 1 implies entry_index(
                            counts@,
                            (#[trigger] self.cars@[j]).behavior_type@,
                            0,
                        ) < counts@.len() by {
                            lemma_entry_index_recount(
                                before,
                                e as int,
                                bumped,
                                self.cars@[j].behavior_type@,
                                0,
                            );
                        }
                    }
                },
                None => {
                    let entry = (self.cars[i].behavior_type.clone(), 1usize);
                    counts.push(entry);
                    proof {
                        lemma_count_behavior(self.cars@, name, i as int);
                        assert forall|j: int| 0 <= j < i implies (
                        #[trigger] self.cars@[j]).behavior_type@ != name by {
                            lemma_entry_index(before, self.cars@[j].behavior_type@, 0);
                            let x = entry_index(before, self.cars@[j].behavior_type@, 0);
                            assert(before[x].0@ == self.cars@[j].behavior_type@);
                        }
                        assert forall|x: int| 0 <= x < counts@.len() implies (
                        #[trigger] counts@[x]).1 == count_behavior(
                            self.cars@,
                            counts@[x].0@,
                            i as int + 1,
                        ) && counts@[x].1 >= 1 by {
                            if x < before.len() {
                                assert(counts@[x] == before[x]);
                                assert(before[x].1 == count_behavior(
                                    self.cars@,
                                    before[x].0@,
                                    i as int,
                                ));
                            }
                        }
                        assert forall|a: int, b: int| 0 <= a < b < counts@.len() implies counts@[a].0@
                            != counts@[b].0@ by {
                            assert(counts@[a] == before[a]);
                            if b < before.len() {
                                assert(counts@[b] == before[b]);
                            }
                        }
                        assert forall|j: int| 0 <= j < i + 1 implies entry_index(
                            counts@,
                            (#[trigger] self.cars@[j]).behavior_type@,
                            0,
                        ) < counts@.len() by {
                            lemma_entry_index_push(before, entry, self.cars@[j].behavior_type@, 0);
                        }
                    }
                },
            }
            i += 1;
        }
        counts
    }

    /// The largest speed of any car; zero without cars.
    pub fn top_speed(&self) -> (r: i64)
        ensures
            r == max_speed(self.cars@, self.cars@.len() as int),
            r >= 0,
    {
        let mut top: i64 = 0;
        let mut i: usize = 0;
        while i < self.cars.len()
            invariant
                i <= self.cars.len(),
                top == max_speed(self.cars@, i as int),
                top >= 0,
            decreases self.cars.len() - i,
        {
            let speed: i64 = self.cars[i].speed();
            if speed > top {
                top = speed;
            }
            i += 1;
        }
        top
    }

    /// How many cars drive in each of `num_buckets` equal ranges of
    /// speed between zero and the largest speed. All counts are zero
    /// where no car moves.
    pub fn get_velocity_distribution(&self, num_buckets: usize) -> (r: Vec<usize>)
        ensures
            r@.len() == num_buckets,
            forall|b: int|
                0 <= b < num_buckets ==> #[trigger] r@[b] == if max_speed(
                    self.cars@,
                    self.cars@.len() as int,
                ) == 0 {
                    0
                } else {
                    count_in_bucket(
                        self.cars@,
                        b,
                        max_speed(self.cars@, self.cars@.len() as int),
                        num_buckets as int,
                        self.cars@.len() as int,
                    )
                },
    {
        let mut distribution: Vec<usize> = Vec::new();
        let mut b: usize = 0;
        while b < num_buckets
            invariant
                b <= num_buckets,
                distribution@.len() == b,
                forall|x: int| 0 <= x < b ==> distribution@[x] == 0,
            decreases num_buckets - b,
        {
            distribution.push(0);
            b += 1;
        }
        let top: i64 = self.top_speed();
        if top == 0 || num_buckets == 0 {
            return distribution;
        }
        let ghost buckets = num_buckets as int;
        let mut i: usize = 0;
        while i < self.cars.len()
            invariant
                i <= self.cars.len(),
                num_buckets > 0,
                buckets == num_buckets,
                top == max_speed(self.cars@, self.cars@.len() as int),
                top > 0,
                distribution@.len() == num_buckets,
                forall|x: int|
                    0 <= x < num_buckets ==> #[trigger] distribution@[x] == count_in_bucket(
                        self.cars@,
                        x,
                        top as int,
                        buckets,
                        i as int,
                    ),
            decreases self.cars.len() - i,
        {
            let speed: i64 = self.cars[i].speed();
            proof {
                lemma_max_speed(self.cars@, self.cars@.len() as int);
                assert(0 <= speed <= top);
                assert(0 <= speed * buckets <= top * buckets) by (nonlinear_arith)
                    requires
                        0 <= speed <= top,
                        0 <= buckets,
                ;
                assert(top * buckets <= 0x7fff_ffff_ffff_ffff * 0xffff_ffff_ffff_ffff)
                    by (nonlinear_arith)
                    requires
                        0 <= top <= 0x7fff_ffff_ffff_ffff,
                        0 <= buckets <= 0xffff_ffff_ffff_ffff,
                ;
                assert((speed * buckets) / (top as int) <= buckets) by (nonlinear_arith)
                    requires
                        0 <= speed * buckets <= top * buckets,
                        top > 0,
                ;
                assert((speed * buckets) / (top as int) >= 0) by (nonlinear_arith)
                    requires
                        0 <= speed * buckets,
                        top > 0,
                ;
            }
            let raw: u128 = ((speed as u128) * (num_buckets as u128)) / (top as u128);
            let index: usize = if raw >= num_buckets as u128 {
                num_buckets - 1
            } else {
                raw as usize
            };
            assert(index == bucket_of(speed as int, top as int, buckets));
            proof {
                lemma_count_in_bucket(self.cars@, index as int, top as int, buckets, i as int);
            }
            let bumped: usize = distribution[index] + 1;
            distribution[index] = bumped;
            i += 1;
        }
        distribution
    }
}

} // verus!
