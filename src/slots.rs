//! Candidate slots: reading them from an availability response, and ranking
//! them by how close they start to a preferred time of day.
use vstd::prelude::*;
use crate::json::{as_array, as_number_text, as_str, as_u64, at, get, Json};
use chrono::Timelike;
use crate::config::Config;
use crate::error::{ResyAPIError, ResyClientError};
use crate::json::{array_items, element, member, number_text, seen, str_value, u64_value};

verus! {

/// One reservation opportunity offered by the service.
#[derive(Debug)]
pub struct ResySlot {
    pub id: String,
    pub token: String,
    pub slot_type: String,
    pub start: String,
    pub end: String,
    pub min_size: u64,
    pub max_size: u64,
    pub quantity: u64,
}

/// The contents of a slot as plain values.
pub struct SlotView {
    pub id: Seq<char>,
    pub token: Seq<char>,
    pub slot_type: Seq<char>,
    pub start: Seq<char>,
    pub end: Seq<char>,
    pub min_size: u64,
    pub max_size: u64,
    pub quantity: u64,
}

impl View for ResySlot {
    type V = SlotView;

    open spec fn view(&self) -> SlotView {
        SlotView {
            id: self.id@,
            token: self.token@,
            slot_type: self.slot_type@,
            start: self.start@,
            end: self.end@,
            min_size: self.min_size,
            max_size: self.max_size,
            quantity: self.quantity,
        }
    }
}

impl ResySlot {
    /// A slot with the same contents.
    pub fn duplicate(&self) -> (r: ResySlot)
        ensures
            r@ == self@,
    {
        ResySlot {
            id: self.id.clone(),
            token: self.token.clone(),
            slot_type: self.slot_type.clone(),
            start: self.start.clone(),
            end: self.end.clone(),
            min_size: self.min_size,
            max_size: self.max_size,
            quantity: self.quantity,
        }
    }
}

/// The slot an availability entry describes, where it has every field:
/// `config.id` (a number), `config.token`, `config.type`, `date.start`,
/// `date.end` (strings), `size.min`, `size.max` and `quantity` (integers).
pub open spec fn slot_of(entry: Json) -> Option<SlotView> {
    let e = Some(entry);
    let config = member(e, "config"@);
    let date = member(e, "date"@);
    let size = member(e, "size"@);
    let id = number_text(member(config, "id"@));
    let token = str_value(member(config, "token"@));
    let slot_type = str_value(member(config, "type"@));
    let start = str_value(member(date, "start"@));
    let end = str_value(member(date, "end"@));
    let min_size = u64_value(member(size, "min"@));
    let max_size = u64_value(member(size, "max"@));
    let quantity = u64_value(member(e, "quantity"@));
    if id is Some && token is Some && slot_type is Some && start is Some && end is Some
        && min_size is Some && max_size is Some && quantity is Some {
        Some(
            SlotView {
                id: id->0,
                token: token->0,
                slot_type: slot_type->0,
                start: start->0,
                end: end->0,
                min_size: min_size->0,
                max_size: max_size->0,
                quantity: quantity->0,
            },
        )
    } else {
        None
    }
}

/// The slots of the entries that describe one, in entry order.
pub open spec fn kept_slots(entries: Seq<Json>) -> Seq<SlotView>
    decreases entries.len(),
{
    if entries.len() == 0 {
        Seq::empty()
    } else {
        let before = kept_slots(entries.drop_last());
        match slot_of(entries.last()) {
            Some(s) => before.push(s),
            None => before,
        }
    }
}

/// The availability entries of a response: `results.venues[0].slots`, or
/// none where the response has no such array.
pub open spec fn slot_entries(response: Json) -> Seq<Json> {
    let venue = element(member(member(Some(response), "results"@), "venues"@), 0);
    match array_items(member(venue, "slots"@)) {
        Some(items) => items,
        None => Seq::empty(),
    }
}

/// The contents of a list of slots.
pub open spec fn views(slots: Seq<ResySlot>) -> Seq<SlotView> {
    slots.map_values(|s: ResySlot| s@)
}

/// Reads the slot an availability entry describes.
pub fn slot_from_entry(entry: &Json) -> (r: Option<ResySlot>)
    ensures
        match r {
            Some(s) => slot_of(*entry) == Some(s@),
            None => slot_of(*entry) is None,
        },
{
    let e = Some(entry);
    let config = get(e, "config");
    let date = get(e, "date");
    let size = get(e, "size");
    let id = as_number_text(get(config, "id"));
    let token = as_str(get(config, "token"));
    let slot_type = as_str(get(config, "type"));
    let start = as_str(get(date, "start"));
    let end = as_str(get(date, "end"));
    let min_size = as_u64(get(size, "min"));
    let max_size = as_u64(get(size, "max"));
    let quantity = as_u64(get(e, "quantity"));
    assert(seen(e) == Some(*entry));
    match (id, token, slot_type, start, end, min_size, max_size, quantity) {
        (Some(id), Some(token), Some(slot_type), Some(start), Some(end), Some(min_size), Some(max_size), Some(quantity)) => {
            Some(
                ResySlot {
                    id: id.clone(),
                    token: token.clone(),
                    slot_type: slot_type.clone(),
                    start: start.clone(),
                    end: end.clone(),
                    min_size,
                    max_size,
                    quantity,
                },
            )
        },
        _ => None,
    }
}

/// Reads the slots of an availability response, in the order the service
/// gave them. Entries that lack a field are left out; a response without
/// entries gives no slots.
pub fn format_slots(response: &Json) -> (r: Vec<ResySlot>)
    ensures
        views(r@) == kept_slots(slot_entries(*response)),
{
    let venues = get(get(Some(response), "results"), "venues");
    let entries = as_array(get(at(venues, 0), "slots"));
    let mut out: Vec<ResySlot> = Vec::new();
    match entries {
        Some(items) => {
            let mut i: usize = 0;
            while i < items.len()
                invariant
                    i <= items@.len(),
                    items@ == slot_entries(*response),
                    views(out@) == kept_slots(items@.subrange(0, i as int)),
                decreases items@.len() - i,
            {
                let slot = slot_from_entry(&items[i]);
                proof {
                    let next = items@.subrange(0, i + 1);
                    assert(next.drop_last() == items@.subrange(0, i as int));
                    assert(next.last() == items@[i as int]);
                }
                match slot {
                    Some(s) => {
                        let ghost before = out@;
                        let ghost seen_slot = s@;
                        out.push(s);
                        assert(views(out@) =~= views(before).push(seen_slot));
                    },
                    None => {},
                }
                i = i + 1;
            }
            assert(items@.subrange(0, items@.len() as int) == items@);
        },
        None => {},
    }
    out
}

/// The hour and minute that `NaiveTime::parse_from_str(s, fmt)` reads from
/// `s`, or `None` where it fails.
pub uninterp spec fn time_of_day(s: Seq<char>, fmt: Seq<char>) -> Option<(u32, u32)>;

/// Relies on chrono's `NaiveTime::parse_from_str`, and on `hour` and `minute`
/// of the time it gives, which are below 24 and 60.
#[verifier::external_body]
fn parse_time_of_day(s: &str, fmt: &str) -> (r: Option<(u32, u32)>)
    ensures
        r == time_of_day(s@, fmt@),
        r matches Some((h, m)) ==> h < 24 && m < 60,
{
    let t = chrono::NaiveTime::parse_from_str(s, fmt).ok()?;
    Some((t.hour(), t.minute()))
}

/// Minutes since midnight of a clock time.
pub open spec fn minutes_of(t: Option<(u32, u32)>) -> Option<int> {
    match t {
        Some((h, m)) => Some(h * 60 + m),
        None => None,
    }
}

/// The clock time a slot starts at, read from the `HH:MM` at characters 11
/// to 16 of its start timestamp (`YYYY-MM-DD HH:MM:SS`).
pub open spec fn start_clock(start: Seq<char>) -> Option<(u32, u32)> {
    if start.len() >= 16 {
        time_of_day(start.subrange(11, 16), "%H:%M"@)
    } else {
        None
    }
}

/// How far apart, in minutes, two times of the same day are.
pub open spec fn gap(a: int, b: int) -> int {
    if a >= b {
        a - b
    } else {
        b - a
    }
}

/// How far, in minutes, a slot starts from the preferred time; `None` where
/// its start cannot be read.
pub open spec fn distance(slot: SlotView, preferred: int) -> Option<int> {
    match minutes_of(start_clock(slot.start)) {
        Some(m) => Some(gap(m, preferred)),
        None => None,
    }
}

/// The distance of each slot from the preferred time.
pub open spec fn distances(slots: Seq<SlotView>, preferred: int) -> Seq<Option<int>> {
    Seq::new(slots.len(), |i: int| distance(slots[i], preferred))
}

/// The distance of each start time from the preferred one.
pub open spec fn clock_distances(starts: Seq<Option<(u32, u32)>>, preferred: (u32, u32)) -> Seq<Option<int>> {
    Seq::new(
        starts.len(),
        |i: int|
            match minutes_of(starts[i]) {
                Some(m) => Some(gap(m, minutes_of(Some(preferred))->0)),
                None => None,
            },
    )
}

/// Position `a` comes before position `b`: its key is smaller, or equal
/// and it comes first.
pub open spec fn ranks_before(keys: Seq<Option<int>>, a: int, b: int) -> bool {
    keys[a]->0 < keys[b]->0 || (keys[a]->0 == keys[b]->0 && a < b)
}

/// `order` lists every position that has a key, smallest key first and, at
/// equal keys, in position order.
pub open spec fn ranks_by(keys: Seq<Option<int>>, order: Seq<int>) -> bool {
    &&& forall|k: int| 0 <= k < order.len() ==> 0 <= #[trigger] order[k] < keys.len() && keys[order[k]] is Some
    &&& forall|i: int|
        0 <= i < keys.len() && #[trigger] keys[i] is Some ==> exists|k: int| 0 <= k < order.len() && order[k] == i
    &&& forall|k1: int, k2: int|
        0 <= k1 < k2 < order.len() ==> ranks_before(keys, #[trigger] order[k1], #[trigger] order[k2])
}

/// Without its first position, a ranking ranks the keys without that
/// position.
proof fn lemma_ranking_rest(keys: Seq<Option<int>>, order: Seq<int>)
    requires
        ranks_by(keys, order),
        order.len() > 0,
    ensures
        ranks_by(keys.update(order[0], None), order.drop_first()),
{
    let first = order[0];
    let rest = order.drop_first();
    let k2 = keys.update(first, None);
    assert forall|k: int| 0 <= k < rest.len() implies 0 <= #[trigger] rest[k] < k2.len() && k2[rest[k]] is Some by {
        assert(rest[k] == order[k + 1]);
        assert(ranks_before(keys, order[0], order[k + 1]));
    }
    assert forall|i: int| 0 <= i < k2.len() && #[trigger] k2[i] is Some implies exists|k: int|
        0 <= k < rest.len() && rest[k] == i by {
        assert(keys[i] is Some);
        let k = choose|k: int| 0 <= k < order.len() && order[k] == i;
        assert(k != 0);
        assert(rest[k - 1] == i);
    }
    assert forall|a: int, b: int| 0 <= a < b < rest.len() implies ranks_before(k2, #[trigger] rest[a], #[trigger] rest[b]) by {
        assert(ranks_before(keys, order[a + 1], order[b + 1]));
        assert(ranks_before(keys, order[0], order[a + 1]));
        assert(ranks_before(keys, order[0], order[b + 1]));
    }
}

/// A ranking is unique: two orders that rank the same keys are the same.
pub proof fn lemma_ranking_unique(keys: Seq<Option<int>>, o1: Seq<int>, o2: Seq<int>)
    requires
        ranks_by(keys, o1),
        ranks_by(keys, o2),
    ensures
        o1 == o2,
    decreases o1.len(),
{
    if o1.len() == 0 || o2.len() == 0 {
        if o2.len() > 0 {
            assert(keys[o2[0]] is Some);
        }
        if o1.len() > 0 {
            assert(keys[o1[0]] is Some);
        }
        assert(o1 =~= o2);
    } else {
        let a = o1[0];
        let b = o2[0];
        if a != b {
            assert(keys[b] is Some);
            let k = choose|k: int| 0 <= k < o1.len() && o1[k] == b;
            assert(ranks_before(keys, o1[0], o1[k]));
            assert(keys[a] is Some);
            let j = choose|j: int| 0 <= j < o2.len() && o2[j] == a;
            assert(ranks_before(keys, o2[0], o2[j]));
        }
        lemma_ranking_rest(keys, o1);
        lemma_ranking_rest(keys, o2);
        lemma_ranking_unique(keys.update(a, None), o1.drop_first(), o2.drop_first());
        assert(o1 =~= seq![a] + o1.drop_first());
        assert(o2 =~= seq![b] + o2.drop_first());
    }
}

/// `order` lists, by position, every slot whose start can be read, closest
/// to the preferred time first and, at equal distance, in list order.
pub open spec fn is_ranking(slots: Seq<SlotView>, preferred: int, order: Seq<int>) -> bool {
    ranks_by(distances(slots, preferred), order)
}

/// `ranked` is `slots` put in the order of a ranking by distance from the
/// preferred time.
pub open spec fn ranked_by_distance(slots: Seq<SlotView>, preferred: int, ranked: Seq<SlotView>) -> bool {
    exists|order: Seq<int>|
        is_ranking(slots, preferred, order) && ranked == order.map_values(|i: int| slots[i])
}

/// Lexicographic order on (distance, position).
pub open spec fn before(a: (u32, usize), b: (u32, usize)) -> bool {
    a.0 < b.0 || (a.0 == b.0 && a.1 < b.1)
}

/// Ranks start times by how close they are to the preferred time: the
/// positions of the known ones, closest first and, at equal distance, in
/// position order.
pub fn rank_by_start(starts: &Vec<Option<(u32, u32)>>, preferred: (u32, u32)) -> (order: Vec<usize>)
    requires
        preferred.0 < 24 && preferred.1 < 60,
        forall|i: int| 0 <= i < starts@.len() ==> (#[trigger] starts@[i] matches Some((h, m)) ==> h < 24 && m < 60),
    ensures
        ranks_by(clock_distances(starts@, preferred), order@.map_values(|i: usize| i as int)),
{
    let ghost keys = clock_distances(starts@, preferred);
    let target = preferred.0 * 60 + preferred.1;
    // (distance, position) of each known start, kept strictly increasing.
    let mut ranked: Vec<(u32, usize)> = Vec::new();
    let mut i: usize = 0;
    while i < starts.len()
        invariant
            i <= starts@.len(),
            keys == clock_distances(starts@, preferred),
            target == preferred.0 * 60 + preferred.1,
            forall|j: int| 0 <= j < starts@.len() ==> (#[trigger] starts@[j] matches Some((h, m)) ==> h < 24 && m < 60),
            forall|k: int|
                0 <= k < ranked@.len() ==> (#[trigger] ranked@[k]).1 < i && keys[ranked@[k].1 as int] == Some(
                    ranked@[k].0 as int,
                ),
            forall|j: int|
                0 <= j < i && #[trigger] keys[j] is Some ==> exists|k: int| 0 <= k < ranked@.len() && ranked@[k].1 == j,
            forall|k1: int, k2: int|
                0 <= k1 < k2 < ranked@.len() ==> before(#[trigger] ranked@[k1], #[trigger] ranked@[k2]),
        decreases starts@.len() - i,
    {
        match starts[i] {
            Some((h, m)) => {
                let at_min = h * 60 + m;
                let d = if at_min >= target { at_min - target } else { target - at_min };
                assert(keys[i as int] == Some(d as int));
                let mut p: usize = 0;
                while p < ranked.len() && ranked[p].0 <= d
                    invariant
                        p <= ranked@.len(),
                        forall|k: int| 0 <= k < p ==> (#[trigger] ranked@[k]).0 <= d,
                    decreases ranked@.len() - p,
                {
                    p = p + 1;
                }
                let ghost prev = ranked@;
                ranked.insert(p, (d, i));
                proof {
                    assert forall|k1: int, k2: int|
                        0 <= k1 < k2 < ranked@.len() implies before(
                        #[trigger] ranked@[k1],
                        #[trigger] ranked@[k2],
                    ) by {
                        if k1 < p as int && k2 < p as int {
                            assert(before(prev[k1], prev[k2]));
                        } else if k1 < p as int && k2 == p as int {
                        } else if k1 < p as int {
                            assert(before(prev[k1], prev[k2 - 1]));
                        } else if k1 == p as int {
                            assert(prev[p as int].0 > d);
                            if k2 - 1 > p as int {
                                assert(before(prev[p as int], prev[k2 - 1]));
                            }
                        } else {
                            assert(before(prev[k1 - 1], prev[k2 - 1]));
                        }
                    }
                    assert forall|j: int| 0 <= j < i + 1 && #[trigger] keys[j] is Some implies exists|k: int|
                        0 <= k < ranked@.len() && ranked@[k].1 == j by {
                        if j == i as int {
                            assert(ranked@[p as int].1 == j);
                        } else {
                            let k = choose|k: int| 0 <= k < prev.len() && prev[k].1 == j;
                            if k < p as int {
                                assert(ranked@[k].1 == j);
                            } else {
                                assert(ranked@[k + 1].1 == j);
                            }
                        }
                    }
                }
            },
            None => {
                assert(keys[i as int] is None);
            },
        }
        i = i + 1;
    }
    let mut order: Vec<usize> = Vec::new();
    let mut k: usize = 0;
    while k < ranked.len()
        invariant
            k <= ranked@.len(),
            order@ == ranked@.subrange(0, k as int).map_values(|e: (u32, usize)| e.1),
        decreases ranked@.len() - k,
    {
        order.push(ranked[k].1);
        assert(order@ =~= ranked@.subrange(0, k + 1).map_values(|e: (u32, usize)| e.1));
        k = k + 1;
    }
    let ghost positions = order@.map_values(|i: usize| i as int);
    assert(ranked@.subrange(0, ranked@.len() as int) == ranked@);
    assert forall|k1: int, k2: int|
        0 <= k1 < k2 < positions.len() implies ranks_before(keys, #[trigger] positions[k1], #[trigger] positions[k2]) by {
        assert(before(ranked@[k1], ranked@[k2]));
    }
    assert forall|j: int| 0 <= j < keys.len() && #[trigger] keys[j] is Some implies exists|k: int|
        0 <= k < positions.len() && positions[k] == j by {
        let k = choose|k: int| 0 <= k < ranked@.len() && ranked@[k].1 == j;
        assert(positions[k] == j);
    }
    order
}

/// Orders slots by how close they start to `target_time` (`HHMM`), closest
/// first; slots at equal distance keep their order, and slots whose start
/// cannot be read are left out. Where `target_time` cannot be read, no slot
/// is returned.
pub fn sort_slots_by_closest_time(slots: Vec<ResySlot>, target_time: &str) -> (r: Vec<ResySlot>)
    ensures
        match minutes_of(time_of_day(target_time@, "%H%M"@)) {
            Some(preferred) => ranked_by_distance(views(slots@), preferred, views(r@)),
            None => r@.len() == 0,
        },
{
    let preferred = match parse_time_of_day(target_time, "%H%M") {
        Some(t) => t,
        None => return Vec::new(),
    };
    let ghost vs = views(slots@);
    let ghost pm = minutes_of(Some(preferred))->0;
    let mut starts: Vec<Option<(u32, u32)>> = Vec::new();
    let mut i: usize = 0;
    while i < slots.len()
        invariant
            i <= slots@.len(),
            vs == views(slots@),
            starts@.len() == i,
            forall|j: int| 0 <= j < i ==> #[trigger] starts@[j] == start_clock(vs[j].start),
            forall|j: int| 0 <= j < i ==> (#[trigger] starts@[j] matches Some((h, m)) ==> h < 24 && m < 60),
        decreases slots@.len() - i,
    {
        let start = &slots[i].start;
        let n = start.as_str().unicode_len();
        let clock = if n >= 16 {
            parse_time_of_day(start.as_str().substring_char(11, 16), "%H:%M")
        } else {
            None
        };
        starts.push(clock);
        i = i + 1;
    }
    let order = rank_by_start(&starts, preferred);
    assert(clock_distances(starts@, preferred) =~= distances(vs, pm));
    assert forall|q: int| 0 <= q < order@.len() implies (#[trigger] order@[q]) < slots@.len() by {
        assert(order@.map_values(|j: usize| j as int)[q] == order@[q] as int);
    }
    let mut ranked: Vec<ResySlot> = Vec::new();
    let mut k: usize = 0;
    while k < order.len()
        invariant
            k <= order@.len(),
            vs == views(slots@),
            forall|q: int| 0 <= q < order@.len() ==> (#[trigger] order@[q]) < slots@.len(),
            views(ranked@) == order@.subrange(0, k as int).map_values(|j: usize| vs[j as int]),
        decreases order@.len() - k,
    {
        let ghost before_push = ranked@;
        ranked.push(slots[order[k]].duplicate());
        assert(views(ranked@) =~= order@.subrange(0, k + 1).map_values(|j: usize| vs[j as int])) by {
            assert(views(ranked@) =~= views(before_push).push(vs[order@[k as int] as int]));
        }
        k = k + 1;
    }
    let ghost positions = order@.map_values(|j: usize| j as int);
    assert(order@.subrange(0, order@.len() as int) == order@);
    assert(views(ranked@) =~= positions.map_values(|j: int| vs[j]));
    assert(is_ranking(vs, pm, positions));
    ranked
}

/// `out` is what resolving `slots` gives: the slots as they came, or, with
/// a preferred time, ranked by distance from it (none where it cannot be
/// read).
pub open spec fn resolved(slots: Seq<SlotView>, preferred: Option<Seq<char>>, out: Seq<SlotView>) -> bool {
    match preferred {
        None => out == slots,
        Some(t) => match minutes_of(time_of_day(t, "%H%M"@)) {
            Some(m) => ranked_by_distance(slots, m, out),
            None => out.len() == 0,
        },
    }
}

/// The view of an optional text.
pub open spec fn opt_view(t: Option<&str>) -> Option<Seq<char>> {
    match t {
        Some(s) => Some(s@),
        None => None,
    }
}

/// The view of an optional owned text.
pub open spec fn opt_string_view(t: Option<String>) -> Option<Seq<char>> {
    match t {
        Some(s) => Some(s@),
        None => None,
    }
}

/// Reads the slots of an availability answer; a refused request is an
/// `ApiError`.
pub fn slots_from_response(response: Result<Json, ResyAPIError>) -> (r: Result<Vec<ResySlot>, ResyClientError>)
    ensures
        response is Err ==> (r matches Err(e) && e is ApiError),
        response matches Ok(j) ==> (r matches Ok(v) && views(v@) == kept_slots(slot_entries(j))),
{
    match response {
        Err(e) => Err(ResyClientError::ApiError(e.message)),
        Ok(j) => Ok(format_slots(&j)),
    }
}

/// Resolves the candidates of a race from an availability answer: its slots,
/// ranked by closeness to `preferred` (`HHMM`) where one is given. No entry
/// gives no slot, which is no error; a refused request is an `ApiError`.
pub fn resolve_slots(response: Result<Json, ResyAPIError>, preferred: Option<&str>) -> (r: Result<
    Vec<ResySlot>,
    ResyClientError,
>)
    ensures
        response is Err ==> (r matches Err(e) && e is ApiError),
        response matches Ok(j) ==> (r matches Ok(v) && resolved(
            kept_slots(slot_entries(j)),
            opt_view(preferred),
            views(v@),
        )),
{
    let slots = slots_from_response(response)?;
    match preferred {
        Some(t) => Ok(sort_slots_by_closest_time(slots, t)),
        None => Ok(slots),
    }
}

/// The candidates of a race, resolved after the wait: a session whose
/// parameters are incomplete is `InvalidInput`; a refused request is an
/// `ApiError`; an answer without candidates is `NotFound`, and no race
/// starts.
pub fn race_candidates(config: &Config, response: Result<Json, ResyAPIError>) -> (r: Result<
    Vec<ResySlot>,
    ResyClientError,
>)
    ensures
        !config.complete() ==> (r matches Err(e) && e is InvalidInput),
        config.complete() && response is Err ==> (r matches Err(e) && e is ApiError),
        config.complete() ==> (response matches Ok(j) ==> exists|out: Seq<SlotView>|
            {
                &&& resolved(kept_slots(slot_entries(j)), opt_string_view(config.target_time), out)
                &&& out.len() == 0 ==> (r matches Err(e) && e is NotFound)
                &&& out.len() > 0 ==> (r matches Ok(v) && views(v@) == out)
            }),
{
    if !config.validate() {
        return Err(ResyClientError::InvalidInput(String::from_str("reservation config is not complete")));
    }
    let preferred = match &config.target_time {
        Some(t) => Some(t.as_str()),
        None => None,
    };
    let slots = resolve_slots(response, preferred)?;
    assert(opt_view(preferred) == opt_string_view(config.target_time));
    let ghost out = views(slots@);
    assert(out.len() == slots@.len());
    if slots.len() == 0 {
        return Err(ResyClientError::NotFound(String::from_str("no reservation slots available")));
    }
    Ok(slots)
}

/// An answer without entries resolves to no candidate, whether or not a
/// preferred time is given.
pub proof fn lemma_no_entries_no_candidates(response: Json, preferred: Option<Seq<char>>, out: Seq<SlotView>)
    requires
        slot_entries(response).len() == 0,
        resolved(kept_slots(slot_entries(response)), preferred, out),
    ensures
        out.len() == 0,
{
    let slots = kept_slots(slot_entries(response));
    assert(slots.len() == 0);
    if let Some(t) = preferred {
        if let Some(m) = minutes_of(time_of_day(t, "%H%M"@)) {
            let order = choose|order: Seq<int>|
                is_ranking(slots, m, order) && out == order.map_values(|i: int| slots[i]);
            if order.len() > 0 {
                assert(0 <= order[0] < slots.len());
            }
        }
    }
}

} // verus!
