//! What a rollout file tells of its session: the meta line at its front, and the
//! number of messages.

use vstd::prelude::*;
use vstd::utf8;
use crate::encoding::utf8_text;
use crate::ids;
use crate::ids::parse_uuid;
use crate::json;
use crate::json::{parse_bytes, parse_text, JsonMemberView, JsonValue};
use crate::text;
use crate::text::{chars_of, contains, find, leading_u32, lines, remove, replace, text_of, trim};

verus! {

/// What is known of a session.
#[derive(Debug, Clone, Copy, PartialEq, Eq)]
pub struct SessionStats {
    pub message_count: Option<u32>,
}

/// The low 32 bits of `n`.
pub open spec fn low_u32(n: u64) -> u32 {
    (n % 0x1_0000_0000) as u32
}

/// The time of creation in the meta line `value`: its timestamp with a space for
/// each `T` and without any `Z`.
pub open spec fn created_in(value: Option<Seq<JsonMemberView>>) -> Seq<char> {
    match json::text_member(value, "timestamp"@) {
        Some(stamp) => text::removed(text::replaced(stamp, 'T', ' '), 'Z'),
        None => Seq::empty(),
    }
}

/// The conversation id in the meta line `value`.
pub open spec fn id_in(value: Option<Seq<JsonMemberView>>) -> Option<u128> {
    match json::text_member(value, "id"@) {
        Some(id) => ids::uuid_of(id),
        None => None,
    }
}

/// The time of creation and the conversation id in the first line of a rollout
/// file, if that is text whose first line is JSON.
pub open spec fn meta_of(rollout: Seq<u8>) -> Option<(Seq<char>, Option<u128>)> {
    let all = text::lines_of(utf8::decode_utf8(rollout));
    if !utf8::valid_utf8(rollout) || all.len() == 0 {
        None
    } else {
        match json::json_of_text(text::trimmed(all[0])) {
            Some(value) => Some((created_in(value), id_in(value))),
            None => None,
        }
    }
}

/// The last `max` bytes of `bytes`.
pub open spec fn tail_of(bytes: Seq<u8>, max: nat) -> Seq<u8> {
    if bytes.len() > max {
        bytes.skip(bytes.len() - max)
    } else {
        bytes
    }
}

/// The lines, trimmed, in the last `max` bytes of a rollout file, if those bytes
/// are text.
pub open spec fn lines_in(rollout: Seq<u8>, max: nat) -> Option<Seq<Seq<char>>> {
    let tail = tail_of(rollout, max);
    if utf8::valid_utf8(tail) {
        Some(text::lines_of(utf8::decode_utf8(tail)).map_values(|l: Seq<char>| text::trimmed(l)))
    } else {
        None
    }
}

/// What a scan of lines has seen: how many items, and the message count that a
/// state line gave.
#[derive(Debug, Clone, Copy, PartialEq, Eq)]
pub struct Scan {
    pub items: u32,
    pub stated: Option<u32>,
}

/// Whether a JSON value is a state line.
pub open spec fn is_state(value: Option<Seq<JsonMemberView>>) -> bool {
    json::text_member(value, "record_type"@) == Some("state"@)
}

/// The message count that a line gives which is no JSON but looks like a state
/// line.
pub open spec fn salvaged(line: Seq<char>) -> Option<u32> {
    let mark = "\"message_count\":"@;
    if !text::holds(line, "\"record_type\":\"state\""@) {
        None
    } else {
        match text::found(line, mark) {
            Some(i) => {
                let digits = text::leading_digits(line.skip(i + mark.len()));
                if digits.len() > 0 && text::numeral(digits) <= u32::MAX {
                    Some(text::numeral(digits) as u32)
                } else {
                    None
                }
            },
            None => None,
        }
    }
}

/// The message count that a trimmed line states, which parsed as `value` if it
/// parsed as JSON.
pub open spec fn count_stated(
    line: Seq<char>,
    value: Option<Option<Seq<JsonMemberView>>>,
) -> Option<u32> {
    match value {
        Some(v) => if is_state(v) {
            match json::number_member(v, "message_count"@) {
                Some(n) => Some(low_u32(n)),
                None => None,
            }
        } else {
            None
        },
        None => salvaged(line),
    }
}

/// The scan after a trimmed line, which parsed as `value` if it parsed as JSON,
/// and of which `is_item` says whether that JSON is a conversation item.
pub open spec fn scanned(
    scan: Scan,
    line: Seq<char>,
    value: Option<Option<Seq<JsonMemberView>>>,
    is_item: bool,
) -> Scan {
    if line.len() == 0 {
        scan
    } else {
        match count_stated(line, value) {
            Some(n) => Scan { stated: Some(n), ..scan },
            None => if is_item && value is Some && !is_state(value->0) && scan.items < u32::MAX {
                Scan { items: (scan.items + 1) as u32, ..scan }
            } else {
                scan
            },
        }
    }
}

/// The scan before the first line.
pub open spec fn fresh_scan() -> Scan {
    Scan { items: 0, stated: None }
}

/// The scan after the trimmed lines `all`, the `i`-th of which is a conversation
/// item where `items[i]` says so.
pub open spec fn scan_of(all: Seq<Seq<char>>, items: Seq<bool>) -> Scan
    decreases all.len(),
{
    if all.len() == 0 {
        fresh_scan()
    } else {
        let i = all.len() - 1;
        scanned(
            scan_of(all.drop_last(), items),
            all.last(),
            json::json_of_text(all.last()),
            i < items.len() && items[i],
        )
    }
}

/// The message count after a scan: the one that was stated, else the number of
/// items.
pub open spec fn concluded(scan: Scan) -> SessionStats {
    SessionStats {
        message_count: match scan.stated {
            Some(n) => Some(n),
            None => Some(scan.items),
        },
    }
}

/// The stats in a sidecar that parsed as `value`, if it holds a message count.
pub open spec fn sidecar_stats(value: Option<Seq<JsonMemberView>>) -> Option<SessionStats> {
    match json::number_member(value, "message_count"@) {
        Some(n) => Some(SessionStats { message_count: Some(low_u32(n)) }),
        None => None,
    }
}

/// The stats in the bytes of a sidecar, if those are JSON with a message count.
pub open spec fn stats_in_sidecar(sidecar: Seq<u8>) -> Option<SessionStats> {
    match json::json_of_bytes(sidecar) {
        Some(value) => sidecar_stats(value),
        None => None,
    }
}

/// The stats in a rollout file, of which `items` says which lines are
/// conversation items.
pub open spec fn rollout_stats(
    rollout: Option<Seq<u8>>,
    max: nat,
    items: Seq<bool>,
) -> SessionStats {
    match rollout {
        Some(bytes) => match lines_in(bytes, max) {
            Some(all) => concluded(scan_of(all, items)),
            None => SessionStats { message_count: None },
        },
        None => SessionStats { message_count: None },
    }
}

/// The stats of a session: those in the sidecar where that holds a message count,
/// else those in the rollout file.
pub open spec fn stats_of(
    sidecar: Option<Seq<u8>>,
    rollout: Option<Seq<u8>>,
    max: nat,
    items: Seq<bool>,
) -> SessionStats {
    match sidecar {
        Some(bytes) => match stats_in_sidecar(bytes) {
            Some(stats) => stats,
            None => rollout_stats(rollout, max, items),
        },
        None => rollout_stats(rollout, max, items),
    }
}

/// The time of creation in the meta line `value`.
pub fn rollout_created(value: &JsonValue) -> (r: String)
    ensures
        r@ == created_in(value@),
{
    match value.text("timestamp") {
        Some(stamp) => {
            let stamp = chars_of(stamp.as_str());
            let spaced = replace(stamp.as_slice(), 'T', ' ');
            let bare = remove(spaced.as_slice(), 'Z');
            text_of(bare.as_slice())
        },
        None => String::new(),
    }
}

/// The conversation id in the meta line `value`.
pub fn rollout_id(value: &JsonValue) -> (r: Option<u128>)
    ensures
        r == id_in(value@),
{
    match value.text("id") {
        Some(id) => parse_uuid(id.as_str()),
        None => None,
    }
}

/// The time of creation and the conversation id in the first line of a rollout
/// file.
pub fn read_rollout_meta_first_line(rollout: &[u8]) -> (r: Option<(String, Option<u128>)>)
    ensures
        r.deep_view() == meta_of(rollout@),
{
    match utf8_text(rollout) {
        None => None,
        Some(t) => {
            let all = chars_of(t);
            let all = lines(all.as_slice());
            if all.len() == 0 {
                return None;
            }
            assert(all.deep_view()[0] == all@[0]@);
            let first = chars_of(all[0].as_str());
            let first = text_of(trim(first.as_slice()));
            match parse_text(first.as_str()) {
                None => None,
                Some(value) => Some((rollout_created(&value), rollout_id(&value))),
            }
        },
    }
}

/// The lines, trimmed, in the last `max_bytes` bytes of a rollout file.
pub fn rollout_lines(rollout: &[u8], max_bytes: usize) -> (r: Option<Vec<String>>)
    ensures
        r.deep_view() == lines_in(rollout@, max_bytes as nat),
{
    let tail = if rollout.len() > max_bytes {
        vstd::slice::slice_subrange(rollout, rollout.len() - max_bytes, rollout.len())
    } else {
        rollout
    };
    assert(tail@ == tail_of(rollout@, max_bytes as nat));
    match utf8_text(tail) {
        None => None,
        Some(t) => {
            let cs = chars_of(t);
            let all = lines(cs.as_slice());
            let ghost goal = all.deep_view().map_values(|l: Seq<char>| text::trimmed(l));
            let mut out: Vec<String> = Vec::new();
            for i in 0..all.len()
                invariant
                    goal == all.deep_view().map_values(|l: Seq<char>| text::trimmed(l)),
                    out.deep_view() == goal.take(i as int),
            {
                let line = chars_of(all[i].as_str());
                let line = text_of(trim(line.as_slice()));
                let ghost before = out.deep_view();
                out.push(line);
                assert(out.deep_view() == before.push(line@));
                assert(all.deep_view()[i as int] == all@[i as int]@);
                assert(goal.take(i + 1) == goal.take(i as int).push(goal[i as int]));
            }
            assert(goal.take(all@.len() as int) == goal);
            Some(out)
        },
    }
}

/// The message count that a line gives which is no JSON but looks like a state
/// line.
fn salvage(line: &[char]) -> (r: Option<u32>)
    ensures
        r == salvaged(line@),
{
    if !contains(line, "\"record_type\":\"state\"") {
        return None;
    }
    let mark = chars_of("\"message_count\":");
    match find(line, mark.as_slice()) {
        Some(i) => {
            let n = line.len();
            let rest = vstd::slice::slice_subrange(line, i + mark.len(), n);
            assert(rest@ == line@.skip(i + mark@.len()));
            leading_u32(rest)
        },
        None => None,
    }
}

/// The scan after one more line.
pub fn scan_line(scan: Scan, line: &str, value: Option<&JsonValue>, is_item: bool) -> (r: Scan)
    ensures
        r == scanned(
            scan,
            line@,
            match value {
                Some(v) => Some(v@),
                None => None,
            },
            is_item,
        ),
{
    if line.is_empty() {
        return scan;
    }
    match value {
        Some(v) => {
            let state = match v.text("record_type") {
                Some(kind) => kind == "state".to_string(),
                None => false,
            };
            if state {
                match v.number("message_count") {
                    Some(n) => Scan {
                        items: scan.items,
                        stated: Some((n % 0x1_0000_0000) as u32),
                    },
                    None => scan,
                }
            } else if is_item {
                Scan { items: scan.items.saturating_add(1), stated: scan.stated }
            } else {
                scan
            }
        },
        None => {
            let cs = chars_of(line);
            match salvage(cs.as_slice()) {
                Some(n) => Scan { items: scan.items, stated: Some(n) },
                None => scan,
            }
        },
    }
}

/// The message count after a scan.
pub fn conclude(scan: Scan) -> (r: SessionStats)
    ensures
        r == concluded(scan),
{
    match scan.stated {
        Some(n) => SessionStats { message_count: Some(n) },
        None => SessionStats { message_count: Some(scan.items) },
    }
}

/// The stats in a sidecar that parsed as `value`, if it holds a message count.
pub fn stats_of_sidecar(value: &JsonValue) -> (r: Option<SessionStats>)
    ensures
        r == sidecar_stats(value@),
{
    match value.number("message_count") {
        Some(n) => Some(SessionStats { message_count: Some((n % 0x1_0000_0000) as u32) }),
        None => None,
    }
}

/// The stats of a session. A sidecar that holds a message count is preferred.
/// Otherwise the last `max_bytes` bytes of the rollout file are scanned: the latest
/// state line counts, or else the number of conversation items, of which `items`
/// says for each of `rollout_lines` whether it is one. A file that could not be
/// read is `None`.
pub fn read_session_stats(
    sidecar: Option<&[u8]>,
    rollout: Option<&[u8]>,
    max_bytes: usize,
    items: &Vec<bool>,
) -> (r: SessionStats)
    ensures
        r == stats_of(sidecar.deep_view(), rollout.deep_view(), max_bytes as nat, items@),
{
    proof {
        if sidecar is Some {
            assert(sidecar->0.deep_view() == sidecar->0@);
        }
        if rollout is Some {
            assert(rollout->0.deep_view() == rollout->0@);
        }
    }
    if let Some(bytes) = sidecar {
        if let Some(value) = parse_bytes(bytes) {
            if let Some(stats) = stats_of_sidecar(&value) {
                return stats;
            }
        }
    }
    let bytes = match rollout {
        Some(bytes) => bytes,
        None => return SessionStats { message_count: None },
    };
    let all = match rollout_lines(bytes, max_bytes) {
        Some(all) => all,
        None => return SessionStats { message_count: None },
    };
    let mut scan = Scan { items: 0, stated: None };
    let ghost goal = all.deep_view();
    for i in 0..all.len()
        invariant
            goal == all.deep_view(),
            scan == scan_of(goal.take(i as int), items@),
    {
        let line = all[i].as_str();
        let ghost upto = goal.take(i + 1);
        assert(upto.drop_last() == goal.take(i as int));
        assert(upto.last() == line@);
        let is_item = i < items.len() && items[i];
        let value = parse_text(line);
        scan = scan_line(scan, line, value.as_ref(), is_item);
    }
    assert(goal.take(all@.len() as int) == goal);
    conclude(scan)
}

/// The time of creation holds no `T` and no `Z`.
pub proof fn law_created_is_bare(value: Option<Seq<JsonMemberView>>)
    ensures
        !created_in(value).contains('T'),
        !created_in(value).contains('Z'),
{
    if let Some(stamp) = json::text_member(value, "timestamp"@) {
        let spaced = text::replaced(stamp, 'T', ' ');
        text::lemma_removed(spaced, 'Z');
        assert forall|j: int| 0 <= j < created_in(value).len() implies created_in(value)[j] != 'T'
            && created_in(value)[j] != 'Z' by {
            assert(spaced.contains(created_in(value)[j]));
        }
    }
}

/// A sidecar that holds a message count decides alone: whatever the rollout file
/// holds, the stats are the same.
pub proof fn law_sidecar_preferred(
    sidecar: Seq<u8>,
    rollout: Option<Seq<u8>>,
    other: Option<Seq<u8>>,
    max: nat,
    items: Seq<bool>,
    other_items: Seq<bool>,
)
    requires
        stats_in_sidecar(sidecar) is Some,
    ensures
        stats_of(Some(sidecar), rollout, max, items) == stats_of(
            Some(sidecar),
            other,
            max,
            other_items,
        ),
{
}

/// A sidecar without a message count decides nothing: the stats are those without
/// it, and where the rollout file is text there is a message count.
pub proof fn law_sidecar_without_count(
    sidecar: Seq<u8>,
    rollout: Seq<u8>,
    max: nat,
    items: Seq<bool>,
)
    requires
        stats_in_sidecar(sidecar) is None,
    ensures
        stats_of(Some(sidecar), Some(rollout), max, items) == stats_of(
            None,
            Some(rollout),
            max,
            items,
        ),
        lines_in(rollout, max) is Some ==> stats_of(
            Some(sidecar),
            Some(rollout),
            max,
            items,
        ).message_count is Some,
{
}

/// Whether a line is a state line with a message count, be it whole or cut off.
pub open spec fn states_count(line: Seq<char>) -> bool {
    line.len() > 0 && count_stated(line, json::json_of_text(line)) is Some
}

/// The latest state line counts: where `all[k]` is a state line with a message
/// count and no line behind it is one, the message count is that of `all[k]`.
pub proof fn law_latest_state_counts(all: Seq<Seq<char>>, items: Seq<bool>, k: int)
    requires
        0 <= k < all.len(),
        states_count(all[k]),
        forall|j: int| k < j < all.len() ==> !states_count(all[j]),
    ensures
        concluded(scan_of(all, items)).message_count == count_stated(
            all[k],
            json::json_of_text(all[k]),
        ),
    decreases all.len(),
{
    let front = all.drop_last();
    if k < all.len() - 1 {
        assert(front[k] == all[k]);
        assert forall|j: int| k < j < front.len() implies !states_count(front[j]) by {
            assert(front[j] == all[j]);
        }
        law_latest_state_counts(front, items, k);
        lemma_stated_kept(front, items, k);
        assert(!states_count(all[all.len() - 1]));
    }
}

/// Once a state line gave a message count, there is one.
proof fn lemma_stated_kept(all: Seq<Seq<char>>, items: Seq<bool>, k: int)
    requires
        0 <= k < all.len(),
        states_count(all[k]),
    ensures
        scan_of(all, items).stated is Some,
    decreases all.len(),
{
    if k < all.len() - 1 {
        assert(all.drop_last()[k] == all[k]);
        lemma_stated_kept(all.drop_last(), items, k);
    }
}

/// Whether a line is JSON, is no state line, and is said to be a conversation
/// item.
pub open spec fn counts_as_item(all: Seq<Seq<char>>, items: Seq<bool>, i: int) -> bool {
    &&& all[i].len() > 0
    &&& json::json_of_text(all[i]) matches Some(v) && !is_state(v)
    &&& i < items.len() && items[i]
}

/// The number of conversation items among the first `n` lines.
pub open spec fn item_count(all: Seq<Seq<char>>, items: Seq<bool>, n: nat) -> nat
    decreases n,
{
    if n == 0 {
        0
    } else {
        item_count(all, items, (n - 1) as nat) + if counts_as_item(all, items, n - 1) {
            1nat
        } else {
            0
        }
    }
}

/// `n`, or the greatest `u32` where `n` is greater.
pub open spec fn at_most_u32(n: nat) -> u32 {
    if n <= u32::MAX {
        n as u32
    } else {
        u32::MAX
    }
}

/// Where no line states a message count, it is the number of conversation items,
/// as far as it can be told.
pub proof fn law_items_counted(all: Seq<Seq<char>>, items: Seq<bool>)
    requires
        forall|j: int| 0 <= j < all.len() ==> !states_count(all[j]),
    ensures
        concluded(scan_of(all, items)).message_count == Some(
            at_most_u32(item_count(all, items, all.len())),
        ),
{
    lemma_items_counted(all, items, all.len());
    assert(all.take(all.len() as int) == all);
}

proof fn lemma_items_counted(all: Seq<Seq<char>>, items: Seq<bool>, n: nat)
    requires
        n <= all.len(),
        forall|j: int| 0 <= j < all.len() ==> !states_count(all[j]),
    ensures
        scan_of(all.take(n as int), items).stated is None,
        scan_of(all.take(n as int), items).items == at_most_u32(item_count(all, items, n)),
    decreases n,
{
    if n > 0 {
        let upto = all.take(n as int);
        lemma_items_counted(all, items, (n - 1) as nat);
        assert(upto.drop_last() == all.take(n - 1));
        assert(upto.last() == all[n - 1]);
        assert(!states_count(all[n - 1]));
    }
}

/// An empty rollout file without a sidecar holds no messages.
pub proof fn law_empty_rollout(max: nat, items: Seq<bool>)
    ensures
        stats_of(None, Some(Seq::empty()), max, items) == (SessionStats { message_count: Some(0) }),
{
    let none = Seq::<u8>::empty();
    assert(utf8::decode_utf8(none) == Seq::<char>::empty());
    assert(lines_in(none, max)->0 == Seq::<Seq<char>>::empty());
}

/// A count that a `u32` holds is kept; of a greater one the multiple of `2^32` that
/// is in it is taken off.
pub proof fn law_count_kept(n: u64)
    ensures
        n <= 4294967295 ==> low_u32(n) == n,
        exists|k: int| n == #[trigger] (k * 4294967296) + low_u32(n),
{
    let k = n as int / 4294967296;
    assert(n == k * 4294967296 + low_u32(n));
}

/// The message count in a sidecar is the message count of the session.
pub proof fn law_sidecar_count(
    sidecar: Seq<u8>,
    members: Seq<JsonMemberView>,
    i: int,
    n: u64,
    rollout: Option<Seq<u8>>,
    max: nat,
    items: Seq<bool>,
)
    requires
        json::json_of_bytes(sidecar) == Some(Some(members)),
        0 <= i < members.len(),
        members[i].name == "message_count"@,
        members[i].number == Some(n),
        forall|j: int| 0 <= j < i ==> members[j].name != "message_count"@,
        n <= 4294967295,
    ensures
        sidecar_stats(Some(members)) == Some(SessionStats { message_count: Some(n as u32) }),
        stats_of(Some(sidecar), rollout, max, items).message_count == Some(n as u32),
{
    json::law_member_found(members, i, "message_count"@);
    law_count_kept(n);
}

/// A sidecar that is no JSON, no object, or has no number under `message_count`
/// gives no message count.
pub proof fn law_sidecar_gives_no_count(sidecar: Seq<u8>)
    ensures
        json::json_of_bytes(sidecar) is None ==> stats_in_sidecar(sidecar) is None,
        json::json_of_bytes(sidecar) matches Some(value) ==> (json::number_member(
            value,
            "message_count"@,
        ) is None ==> stats_in_sidecar(sidecar) is None),
{
}

/// Whether `members` are those of a state line: `record_type`, at `i`, is `state`.
pub open spec fn are_of_state(members: Seq<JsonMemberView>, i: int) -> bool {
    &&& 0 <= i < members.len()
    &&& members[i].name == "record_type"@
    &&& members[i].text == Some("state"@)
    &&& forall|j: int| 0 <= j < i ==> members[j].name != "record_type"@
}

/// The message count in a state line that is JSON is the one that the line states.
pub proof fn law_state_line_count(
    line: Seq<char>,
    members: Seq<JsonMemberView>,
    i: int,
    k: int,
    n: u64,
)
    requires
        are_of_state(members, i),
        0 <= k < members.len(),
        members[k].name == "message_count"@,
        members[k].number == Some(n),
        forall|j: int| 0 <= j < k ==> members[j].name != "message_count"@,
    ensures
        count_stated(line, Some(Some(members))) == Some(low_u32(n)),
        n <= 4294967295 ==> count_stated(line, Some(Some(members))) == Some(n as u32),
{
    json::law_member_found(members, i, "record_type"@);
    json::law_member_found(members, k, "message_count"@);
    law_count_kept(n);
}

/// A line that is JSON states nothing where its `record_type` is not `state` or it
/// has no number under `message_count`.
pub proof fn law_other_line_states_nothing(line: Seq<char>, value: Option<Seq<JsonMemberView>>)
    requires
        json::text_member(value, "record_type"@) != Some("state"@) || json::number_member(
            value,
            "message_count"@,
        ) is None,
    ensures
        count_stated(line, Some(value)) is None,
{
}

/// A line that is no JSON but looks like a state line states the number behind the
/// first `"message_count":`, where digits follow that a `u32` can hold.
pub proof fn law_cut_off_line_count(
    line: Seq<char>,
    i: int,
    digits: Seq<char>,
    rest: Seq<char>,
)
    requires
        text::holds(line, "\"record_type\":\"state\""@),
        text::found(line, "\"message_count\":"@) == Some(i),
        line.skip(i + "\"message_count\":"@.len()) == digits + rest,
        forall|j: int| 0 <= j < digits.len() ==> text::is_digit(digits[j]),
        rest.len() > 0 ==> !text::is_digit(rest[0]),
    ensures
        digits.len() > 0 && text::numeral(digits) <= 4294967295 ==> count_stated(line, None)
            == Some(text::numeral(digits) as u32),
        digits.len() == 0 || text::numeral(digits) > 4294967295 ==> count_stated(line, None) is None,
{
    text::law_leading_digits(digits, rest);
}

/// A line that is no JSON states nothing where it does not look like a state line
/// or has no `"message_count":`.
pub proof fn law_cut_off_line_states_nothing(line: Seq<char>)
    requires
        !text::holds(line, "\"record_type\":\"state\""@) || !text::holds(
            line,
            "\"message_count\":"@,
        ),
    ensures
        count_stated(line, None) is None,
{
}

/// What one more line does to a scan. A line that states a count sets it; a line
/// that is JSON, no state line and an item adds one item, as far as that can be
/// told; every other line, and a blank one, changes nothing.
pub proof fn law_one_more_line(all: Seq<Seq<char>>, line: Seq<char>, items: Seq<bool>)
    ensures
        ({
            let before = scan_of(all, items);
            let after = scan_of(all.push(line), items);
            let value = json::json_of_text(line);
            let flagged = all.len() < items.len() && items[all.len() as int];
            let stated = count_stated(line, value);
            let other = value is Some && json::text_member(value->0, "record_type"@) != Some(
                "state"@,
            );
            &&& line.len() > 0 && stated is Some ==> after.stated == stated && after.items
                == before.items
            &&& line.len() == 0 || stated is None ==> after.stated == before.stated
            &&& line.len() > 0 && other && flagged && before.items < 4294967295 ==> after.items
                == before.items + 1
            &&& line.len() == 0 || !other || !flagged || before.items == 4294967295 ==> after.items
                == before.items
        }),
{
    assert(all.push(line).drop_last() =~= all);
}

/// A scan of nothing has seen nothing; and what a scan concludes is the count that
/// was stated, else the number of items.
pub proof fn law_scan_ends(items: Seq<bool>, scan: Scan)
    ensures
        scan_of(Seq::empty(), items).items == 0,
        scan_of(Seq::empty(), items).stated is None,
        concluded(scan).message_count is Some,
        scan.stated is Some ==> concluded(scan).message_count == scan.stated,
        scan.stated is None ==> concluded(scan).message_count == Some(scan.items),
{
}

/// The lines that are scanned are those of the last bytes of the rollout file, of
/// all of it where it has no more, each of them trimmed; there are none where those
/// bytes are no text.
pub proof fn law_end_of_rollout(front: Seq<u8>, back: Seq<u8>, max: nat)
    requires
        back.len() == max || (front.len() == 0 && back.len() < max),
    ensures
        lines_in(front + back, max) is Some <==> utf8::valid_utf8(back),
        lines_in(front + back, max) matches Some(all) ==> {
            let whole = text::lines_of(utf8::decode_utf8(back));
            &&& all.len() == whole.len()
            &&& forall|i: int|
                0 <= i < all.len() ==> #[trigger] all[i] == text::trimmed(whole[i])
        },
{
    let bytes = front + back;
    if bytes.len() > max {
        assert(bytes.skip(bytes.len() - max) =~= back);
    } else {
        assert(bytes =~= back);
    }
}

/// Where the sidecar gives no message count, the scan of the rollout file does; and
/// nothing does where the rollout file could not be read or is no text at its end.
pub proof fn law_rollout_decides(
    sidecar: Option<Seq<u8>>,
    rollout: Option<Seq<u8>>,
    max: nat,
    items: Seq<bool>,
)
    requires
        sidecar is None || stats_in_sidecar(sidecar->0) is None,
    ensures
        ({
            let stats = stats_of(sidecar, rollout, max, items);
            &&& rollout is None ==> stats.message_count is None
            &&& rollout matches Some(bytes) ==> match lines_in(bytes, max) {
                Some(all) => {
                    let scan = scan_of(all, items);
                    stats.message_count == Some(
                        if scan.stated is Some {
                            scan.stated->0
                        } else {
                            scan.items
                        },
                    )
                },
                None => stats.message_count is None,
            }
        }),
{
}

/// The meta line: its timestamp, with a space for the `T` and without the `Z`, is
/// the time of creation, and its id, where it reads as one, the conversation id.
pub proof fn law_meta_line(
    rollout: Seq<u8>,
    members: Seq<JsonMemberView>,
    i: int,
    day: Seq<char>,
    time: Seq<char>,
    k: int,
    id: Seq<char>,
)
    requires
        utf8::valid_utf8(rollout),
        text::lines_of(utf8::decode_utf8(rollout)).len() > 0,
        json::json_of_text(text::trimmed(text::lines_of(utf8::decode_utf8(rollout))[0])) == Some(
            Some(members),
        ),
        0 <= i < members.len(),
        members[i].name == "timestamp"@,
        members[i].text == Some(day + seq!['T'] + time + seq!['Z']),
        forall|j: int| 0 <= j < i ==> members[j].name != "timestamp"@,
        !day.contains('T') && !day.contains('Z') && !time.contains('T') && !time.contains('Z'),
        0 <= k < members.len(),
        members[k].name == "id"@,
        members[k].text == Some(id),
        forall|j: int| 0 <= j < k ==> members[j].name != "id"@,
    ensures
        meta_of(rollout) == Some((day + seq![' '] + time, ids::uuid_of(id))),
{
    json::law_member_found(members, i, "timestamp"@);
    json::law_member_found(members, k, "id"@);
    lemma_bare_stamp(day, time);
}

/// A timestamp with a space for the `T` and without the `Z`.
proof fn lemma_bare_stamp(day: Seq<char>, time: Seq<char>)
    requires
        !day.contains('T') && !day.contains('Z') && !time.contains('T') && !time.contains('Z'),
    ensures
        text::removed(text::replaced(day + seq!['T'] + time + seq!['Z'], 'T', ' '), 'Z') == day
            + seq![' '] + time,
{
    let stamp = day + seq!['T'] + time + seq!['Z'];
    let spaced = text::replaced(stamp, 'T', ' ');
    let bare = day + seq![' '] + time;
    assert forall|j: int| 0 <= j < day.len() implies day[j] != 'T' && day[j] != 'Z' by {
        assert(day.contains(day[j]));
    }
    assert forall|j: int| 0 <= j < time.len() implies time[j] != 'T' && time[j] != 'Z' by {
        assert(time.contains(time[j]));
    }
    assert(spaced =~= bare.push('Z'));
    text::law_removed(bare, 'Z', 'Z');
    lemma_nothing_removed(bare, 'Z');
}

/// Where a character does not occur, removing it changes nothing.
proof fn lemma_nothing_removed(s: Seq<char>, gone: char)
    requires
        forall|j: int| 0 <= j < s.len() ==> s[j] != gone,
    ensures
        text::removed(s, gone) == s,
    decreases s.len(),
{
    if s.len() > 0 {
        let front = s.drop_last();
        lemma_nothing_removed(front, gone);
        text::law_removed(front, s.last(), gone);
        assert(front.push(s.last()) =~= s);
    } else {
        text::law_removed(s, 'x', gone);
        assert(s =~= Seq::<char>::empty());
    }
}

/// Any timestamp becomes the time of creation character by character, and a meta
/// line without one gives an empty time; a meta line without an id gives none.
pub proof fn law_meta_members(value: Option<Seq<JsonMemberView>>)
    ensures
        json::text_member(value, "timestamp"@) matches Some(stamp) ==> created_in(value)
            == text::removed(text::replaced(stamp, 'T', ' '), 'Z'),
        json::text_member(value, "timestamp"@) is None ==> created_in(value).len() == 0,
        json::text_member(value, "id"@) matches Some(id) ==> id_in(value) == ids::uuid_of(id),
        json::text_member(value, "id"@) is None ==> id_in(value) is None,
{
}

/// There is a meta line exactly where the rollout file is text whose first line is
/// JSON.
pub proof fn law_meta_line_read(rollout: Seq<u8>)
    ensures
        ({
            let all = text::lines_of(utf8::decode_utf8(rollout));
            let value = json::json_of_text(text::trimmed(all[0]));
            &&& meta_of(rollout) is Some <==> utf8::valid_utf8(rollout) && all.len() > 0 && value
                is Some
            &&& meta_of(rollout) matches Some(meta) ==> meta.0 == created_in(value->0) && meta.1
                == id_in(value->0)
        }),
{
}

} // verus!
