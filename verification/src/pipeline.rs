//! The event pipeline: a raw change is matched against the scope registry,
//! dropped when unmatched or ignored, enriched into an audit event, and
//! dispatched to the selected sinks in strict arrival order.

use vstd::prelude::*;

use crate::config::Destination;
use crate::event::{
    build_event, enriched_from, Event, EventView, RawChange, RawChangeView,
};
use crate::scope::{is_ignored, resolve, rules_view, Rule, RuleView, scope_matches, spec_is_ignored};
use crate::strutil::{file_name, file_name_of, u128_to_string};
use crate::event::timestamp_millis;

verus! {

/// The views of a sequence of raw changes.
pub open spec fn raws_view(s: Seq<RawChange>) -> Seq<RawChangeView> {
    s.map_values(|r: RawChange| r@)
}

/// The position of the first rule whose scope covers the raw change, or -1
/// when none does.
pub open spec fn spec_first_match(rules: Seq<RuleView>, raw: RawChangeView) -> int
    decreases rules.len(),
{
    if rules.len() == 0 {
        -1
    } else if scope_matches(rules[0], raw.path, raw.reported_cwd) {
        0
    } else {
        let m = spec_first_match(rules.drop_first(), raw);
        if m < 0 {
            -1
        } else {
            m + 1
        }
    }
}

/// `spec_first_match` returns -1 exactly when no rule matches, and
/// otherwise the least matching position.
pub proof fn lemma_first_match_properties(rules: Seq<RuleView>, raw: RawChangeView)
    ensures
        spec_first_match(rules, raw) == -1 ==> forall|i: int|
            0 <= i < rules.len() ==> !scope_matches(#[trigger] rules[i], raw.path, raw.reported_cwd),
        spec_first_match(rules, raw) != -1 ==> 0 <= spec_first_match(rules, raw) < rules.len()
            && scope_matches(rules[spec_first_match(rules, raw)], raw.path, raw.reported_cwd)
            && forall|j: int|
            0 <= j < spec_first_match(rules, raw) ==> !scope_matches(
                #[trigger] rules[j],
                raw.path,
                raw.reported_cwd,
            ),
    decreases rules.len(),
{
    if rules.len() == 0 {
    } else if scope_matches(rules[0], raw.path, raw.reported_cwd) {
    } else {
        lemma_first_match_properties(rules.drop_first(), raw);
        let m = spec_first_match(rules.drop_first(), raw);
        if m < 0 {
            assert forall|i: int| 0 <= i < rules.len() implies !scope_matches(
                #[trigger] rules[i],
                raw.path,
                raw.reported_cwd,
            ) by {
                if i >= 1 {
                    assert(rules.drop_first()[i - 1] == rules[i]);
                }
            }
        } else {
            assert(rules.drop_first()[m] == rules[m + 1]);
            assert forall|j: int| 0 <= j < m + 1 implies !scope_matches(
                #[trigger] rules[j],
                raw.path,
                raw.reported_cwd,
            ) by {
                if j >= 1 {
                    assert(rules.drop_first()[j - 1] == rules[j]);
                }
            }
        }
    }
}

/// Any position that matches while every earlier one does not is the first
/// match.
pub proof fn lemma_first_match_unique(rules: Seq<RuleView>, raw: RawChangeView, idx: int)
    requires
        0 <= idx < rules.len(),
        scope_matches(rules[idx], raw.path, raw.reported_cwd),
        forall|j: int| 0 <= j < idx ==> !scope_matches(#[trigger] rules[j], raw.path, raw.reported_cwd),
    ensures
        spec_first_match(rules, raw) == idx,
{
    lemma_first_match_properties(rules, raw);
    let m = spec_first_match(rules, raw);
    if m == -1 {
        assert(!scope_matches(rules[idx], raw.path, raw.reported_cwd));
    } else if m < idx {
        assert(!scope_matches(rules[m], raw.path, raw.reported_cwd));
    } else if m > idx {
        assert(!scope_matches(rules[idx], raw.path, raw.reported_cwd));
    }
}

/// A raw change produces an event exactly when some rule matches it and the
/// first matching rule does not ignore its filename.
pub open spec fn spec_accepts(rules: Seq<RuleView>, raw: RawChangeView) -> bool {
    spec_first_match(rules, raw) >= 0 && !spec_is_ignored(
        rules[spec_first_match(rules, raw)],
        file_name_of(raw.path),
    )
}

/// The event delivered for an accepted raw change: its deterministic fields
/// are the enrichment of the raw change by the first matching rule's
/// labels, its identifier is a 36-character UUID rendering, and its
/// timestamp is the decimal numeral of some millisecond clock reading.
pub open spec fn spec_delivered(
    e: EventView,
    rules: Seq<RuleView>,
    raw: RawChangeView,
    checksum: Seq<char>,
    node: Seq<char>,
    pid: u32,
) -> bool {
    spec_accepts(rules, raw) && enriched_from(
        e,
        raw,
        rules[spec_first_match(rules, raw)].labels,
        node,
        e.hostname,
        checksum,
        pid,
    ) && e.id.len() == 36 && exists|millis: nat| e.timestamp == crate::strutil::dec_digits(millis)
}

/// Relies on `uuid::Uuid::new_v4` and its `Display` rendering: a freshly
/// generated random version-4 UUID in the hyphenated form, which is always
/// 36 characters. The value itself is random, so nothing more is promised.
#[verifier::external_body]
fn new_event_id() -> (r: String)
    ensures
        r@.len() == 36,
{
    uuid::Uuid::new_v4().to_string()
}

/// Relies on `time::OffsetDateTime::now_utc` and its accessors: the clock
/// reading in nanoseconds since the Unix epoch, and the UTC year, month and
/// day, whose documented ranges are -9999..=9999, 1..=12 and 1..=31. The
/// reading depends on the wall clock, so nothing is promised of its value.
#[verifier::external_body]
fn now_utc_parts() -> (r: (i128, i32, u8, u8))
    ensures
        -9999 <= r.1 <= 9999,
        1 <= r.2 <= 12,
        1 <= r.3 <= 31,
{
    let now = time::OffsetDateTime::now_utc();
    (now.unix_timestamp_nanos(), now.year(), now.month() as u8, now.day() as u8)
}

/// Relies on `gethostname::gethostname`: the hostname the operating system
/// reports, or the empty string when it is not valid Unicode. The answer
/// depends on the machine, so nothing is promised of it.
#[verifier::external_body]
fn current_hostname() -> String {
    gethostname::gethostname().into_string().unwrap_or_default()
}

/// The remote index partition name for today, one partition per calendar
/// day of the UTC wall clock.
pub fn today_index_name() -> (r: String)
    ensures
        exists|y: int, m: int, d: int|
            -9999 <= y <= 9999 && 1 <= m <= 12 && 1 <= d <= 31 && r@ == crate::event::spec_index_name(
                y,
                m,
                d,
            ),
{
    let parts = now_utc_parts();
    let r = crate::event::index_name(parts.1, parts.2, parts.3);
    proof {
        assert(-9999 <= parts.1 as int <= 9999 && 1 <= parts.2 as int <= 12 && 1 <= parts.3 as int
            <= 31 && r@ == crate::event::spec_index_name(
            parts.1 as int,
            parts.2 as int,
            parts.3 as int,
        ));
    }
    r
}

/// Delivers one event to every sink the destination mode selects, by
/// appending it: the file sink unless the mode is network-only, the network
/// sink unless the mode is file-only. The other entries stay as they were.
pub fn dispatch(event: Event, mode: Destination, file_sink: &mut Vec<Event>, net_sink: &mut Vec<Event>)
    ensures
        mode != Destination::Network ==> final(file_sink)@.len() == old(file_sink)@.len() + 1
            && final(file_sink)@[old(file_sink)@.len() as int]@ == event@ && forall|k: int|
            0 <= k < old(file_sink)@.len() ==> final(file_sink)@[k] == #[trigger] old(file_sink)@[k],
        mode == Destination::Network ==> final(file_sink)@ == old(file_sink)@,
        mode != Destination::File ==> final(net_sink)@.len() == old(net_sink)@.len() + 1 && final(net_sink)@[old(net_sink)@.len() as int]@ == event@ && forall|k: int|
            0 <= k < old(net_sink)@.len() ==> final(net_sink)@[k] == #[trigger] old(net_sink)@[k],
        mode == Destination::File ==> final(net_sink)@ == old(net_sink)@,
{
    match mode {
        Destination::File => {
            file_sink.push(event);
        },
        Destination::Network => {
            net_sink.push(event);
        },
        Destination::Both => {
            let copy = event.clone();
            file_sink.push(copy);
            net_sink.push(event);
        },
    }
}

/// Runs one raw change through the pipeline: resolves it against the rules,
/// drops it without touching any sink when no rule matches or the first
/// matching rule ignores its filename, and otherwise enriches it and
/// dispatches the event to the selected sinks. Returns the delivered event.
pub fn handle_change(
    raw: &RawChange,
    rules: &Vec<Rule>,
    node: &str,
    pid: u32,
    checksum: String,
    mode: Destination,
    file_sink: &mut Vec<Event>,
    net_sink: &mut Vec<Event>,
) -> (r: Option<Event>)
    requires
        rules@.len() < usize::MAX,
    ensures
        r is Some <==> spec_accepts(rules_view(rules@), raw@),
        r matches Some(e) ==> spec_delivered(e@, rules_view(rules@), raw@, checksum@, node@, pid),
        r is None ==> final(file_sink)@ == old(file_sink)@ && final(net_sink)@ == old(net_sink)@,
        r matches Some(e) ==> {
            &&& mode != Destination::Network ==> final(file_sink)@.len() == old(file_sink)@.len()
                + 1 && final(file_sink)@[old(file_sink)@.len() as int]@ == e@ && forall|k: int|
                0 <= k < old(file_sink)@.len() ==> final(file_sink)@[k] == #[trigger] old(file_sink)@[k]
            &&& mode == Destination::Network ==> final(file_sink)@ == old(file_sink)@
            &&& mode != Destination::File ==> final(net_sink)@.len() == old(net_sink)@.len() + 1
                && final(net_sink)@[old(net_sink)@.len() as int]@ == e@ && forall|k: int|
                0 <= k < old(net_sink)@.len() ==> final(net_sink)@[k] == #[trigger] old(net_sink)@[k]
            &&& mode == Destination::File ==> final(net_sink)@ == old(net_sink)@
        },
{
    let ghost rv = rules_view(rules@);
    let idx = resolve(raw.path.as_str(), raw.reported_cwd.as_str(), rules);
    if idx == usize::MAX {
        proof {
            lemma_first_match_properties(rv, raw@);
            if spec_first_match(rv, raw@) >= 0 {
                assert(scope_matches(
                    rv[spec_first_match(rv, raw@)],
                    raw@.path,
                    raw@.reported_cwd,
                ));
            }
        }
        return None;
    }
    proof {
        lemma_first_match_unique(rv, raw@, idx as int);
    }
    let fname = file_name(raw.path.as_str());
    if is_ignored(idx, fname, rules) {
        return None;
    }
    let id = new_event_id();
    let parts = now_utc_parts();
    let millis = timestamp_millis(parts.0);
    let timestamp = u128_to_string(millis);
    let hostname = current_hostname();
    let event = build_event(raw, idx, rules, node, id, timestamp, hostname, checksum, pid);
    proof {
        assert(event@.timestamp == crate::strutil::dec_digits(millis as nat));
    }
    let delivered = event.clone();
    dispatch(event, mode, file_sink, net_sink);
    Some(delivered)
}

/// The positions, in arrival order, of the raw changes among the first `n`
/// that the pipeline accepts.
pub open spec fn accepted_upto(rules: Seq<RuleView>, raws: Seq<RawChangeView>, n: int) -> Seq<int>
    decreases n,
{
    if n <= 0 {
        Seq::empty()
    } else {
        accepted_upto(rules, raws, n - 1) + (if spec_accepts(rules, raws[n - 1]) {
            seq![n - 1]
        } else {
            Seq::empty()
        })
    }
}

/// The positions of the accepted raw changes, in arrival order.
pub open spec fn spec_accepted_indices(rules: Seq<RuleView>, raws: Seq<RawChangeView>) -> Seq<int> {
    accepted_upto(rules, raws, raws.len() as int)
}

/// The accepted positions are within range, are exactly the accepted raw
/// changes, and keep arrival order: an earlier delivery comes from an
/// earlier raw change.
pub proof fn lemma_accepted_indices_ordered(
    rules: Seq<RuleView>,
    raws: Seq<RawChangeView>,
    n: int,
)
    requires
        n <= raws.len(),
    ensures
        forall|j: int|
            0 <= j < accepted_upto(rules, raws, n).len() ==> 0 <= #[trigger] accepted_upto(
                rules,
                raws,
                n,
            )[j] < n,
        forall|j: int|
            0 <= j < accepted_upto(rules, raws, n).len() ==> spec_accepts(
                rules,
                raws[#[trigger] accepted_upto(rules, raws, n)[j]],
            ),
        forall|j1: int, j2: int|
            0 <= j1 < j2 < accepted_upto(rules, raws, n).len() ==> #[trigger] accepted_upto(
                rules,
                raws,
                n,
            )[j1] < #[trigger] accepted_upto(rules, raws, n)[j2],
    decreases n,
{
    if n <= 0 {
    } else {
        lemma_accepted_indices_ordered(rules, raws, n - 1);
        let acc0 = accepted_upto(rules, raws, n - 1);
        let accn = accepted_upto(rules, raws, n);
        assert(accn == acc0 + (if spec_accepts(rules, raws[n - 1]) {
            seq![n - 1]
        } else {
            Seq::<int>::empty()
        }));
        assert forall|j: int| 0 <= j < accn.len() implies 0 <= #[trigger] accn[j] < n
            && spec_accepts(rules, raws[accn[j]]) by {
            if j < acc0.len() {
                assert(accn[j] == acc0[j]);
            } else {
                assert(accn[j] == n - 1);
            }
        }
        assert forall|j1: int, j2: int| 0 <= j1 < j2 < accn.len() implies #[trigger] accn[j1]
            < #[trigger] accn[j2] by {
            if j2 < acc0.len() {
                assert(accn[j1] == acc0[j1]);
                assert(accn[j2] == acc0[j2]);
            } else {
                assert(accn[j2] == n - 1);
                assert(accn[j1] == acc0[j1]);
            }
        }
    }
}

/// A raw change that the pipeline drops is never delivered: its position is
/// not among the accepted positions.
pub proof fn lemma_dropped_never_delivered(
    rules: Seq<RuleView>,
    raws: Seq<RawChangeView>,
    i: int,
)
    requires
        0 <= i < raws.len(),
        !spec_accepts(rules, raws[i]),
    ensures
        forall|j: int|
            0 <= j < spec_accepted_indices(rules, raws).len() ==> #[trigger] spec_accepted_indices(
                rules,
                raws,
            )[j] != i,
{
    lemma_accepted_indices_ordered(rules, raws, raws.len() as int);
}

/// Runs a batch of raw changes through the pipeline in arrival order, with
/// `checksums[i]` the checksum collaborator's answer for `raws[i]`. Each
/// selected sink receives exactly the events of the accepted raw changes,
/// in arrival order; dropped raw changes appear in neither sink. Returns
/// how many events were delivered.
pub fn process_changes(
    raws: &Vec<RawChange>,
    checksums: &Vec<String>,
    rules: &Vec<Rule>,
    node: &str,
    pid: u32,
    mode: Destination,
    file_sink: &mut Vec<Event>,
    net_sink: &mut Vec<Event>,
) -> (delivered: usize)
    requires
        checksums@.len() == raws@.len(),
        rules@.len() < usize::MAX,
    ensures
        ({
            let rv = rules_view(rules@);
            let rs = raws_view(raws@);
            let acc = spec_accepted_indices(rv, rs);
            &&& delivered == acc.len()
            &&& mode != Destination::Network ==> final(file_sink)@.len() == old(file_sink)@.len()
                + acc.len() && (forall|k: int|
                0 <= k < old(file_sink)@.len() ==> final(file_sink)@[k] == #[trigger] old(file_sink)@[k]) && (forall|j: int|
                0 <= j < acc.len() ==> spec_delivered(
                    #[trigger] final(file_sink)@[old(file_sink)@.len() + j]@,
                    rv,
                    rs[acc[j]],
                    checksums@[acc[j]]@,
                    node@,
                    pid,
                ))
            &&& mode == Destination::Network ==> final(file_sink)@ == old(file_sink)@
            &&& mode != Destination::File ==> final(net_sink)@.len() == old(net_sink)@.len()
                + acc.len() && (forall|k: int|
                0 <= k < old(net_sink)@.len() ==> final(net_sink)@[k] == #[trigger] old(net_sink)@[k]) && (forall|j: int|
                0 <= j < acc.len() ==> spec_delivered(
                    #[trigger] final(net_sink)@[old(net_sink)@.len() + j]@,
                    rv,
                    rs[acc[j]],
                    checksums@[acc[j]]@,
                    node@,
                    pid,
                ))
            &&& mode == Destination::File ==> final(net_sink)@ == old(net_sink)@
        }),
{
    let ghost rv = rules_view(rules@);
    let ghost rs = raws_view(raws@);
    let ghost file0 = old(file_sink)@;
    let ghost net0 = old(net_sink)@;
    let mut i: usize = 0;
    let mut delivered: usize = 0;
    while i < raws.len()
        invariant
            checksums@.len() == raws@.len(),
            rules@.len() < usize::MAX,
            rv == rules_view(rules@),
            rs == raws_view(raws@),
            i <= raws@.len(),
            delivered == accepted_upto(rv, rs, i as int).len(),
            delivered <= i,
            mode != Destination::Network ==> file_sink@.len() == file0.len() + accepted_upto(
                rv,
                rs,
                i as int,
            ).len() && (forall|k: int|
                0 <= k < file0.len() ==> file_sink@[k] == #[trigger] file0[k]) && (forall|j: int|
                0 <= j < accepted_upto(rv, rs, i as int).len() ==> spec_delivered(
                    #[trigger] file_sink@[file0.len() + j]@,
                    rv,
                    rs[accepted_upto(rv, rs, i as int)[j]],
                    checksums@[accepted_upto(rv, rs, i as int)[j]]@,
                    node@,
                    pid,
                )),
            mode == Destination::Network ==> file_sink@ == file0,
            mode != Destination::File ==> net_sink@.len() == net0.len() + accepted_upto(
                rv,
                rs,
                i as int,
            ).len() && (forall|k: int|
                0 <= k < net0.len() ==> net_sink@[k] == #[trigger] net0[k]) && (forall|j: int|
                0 <= j < accepted_upto(rv, rs, i as int).len() ==> spec_delivered(
                    #[trigger] net_sink@[net0.len() + j]@,
                    rv,
                    rs[accepted_upto(rv, rs, i as int)[j]],
                    checksums@[accepted_upto(rv, rs, i as int)[j]]@,
                    node@,
                    pid,
                )),
            mode == Destination::File ==> net_sink@ == net0,
        decreases raws@.len() - i,
    {
        proof {
            lemma_accepted_indices_ordered(rv, rs, i as int);
            assert(rs[i as int] == raws@[i as int]@);
        }
        let ghost acc_i = accepted_upto(rv, rs, i as int);
        let ghost acc_n = accepted_upto(rv, rs, i as int + 1);
        let ghost file_prev = file_sink@;
        let ghost net_prev = net_sink@;
        let checksum = checksums[i].clone();
        let r = handle_change(&raws[i], rules, node, pid, checksum, mode, file_sink, net_sink);
        proof {
            lemma_accepted_indices_ordered(rv, rs, i as int + 1);
            assert(acc_n == acc_i + (if spec_accepts(rv, rs[i as int]) {
                seq![i as int]
            } else {
                Seq::<int>::empty()
            }));
        }
        match &r {
            Some(e) => {
                proof {
                    assert(spec_accepts(rv, rs[i as int]));
                    assert(acc_n.len() == acc_i.len() + 1);
                    assert(acc_n[acc_i.len() as int] == i as int);
                    assert(forall|j: int|
                        0 <= j < acc_i.len() ==> #[trigger] acc_n[j] == acc_i[j]);
                    assert(spec_delivered(e@, rv, rs[i as int], checksums@[i as int]@, node@, pid));
                    if mode != Destination::Network {
                        assert forall|j: int| 0 <= j < acc_n.len() implies spec_delivered(
                            #[trigger] file_sink@[file0.len() + j]@,
                            rv,
                            rs[acc_n[j]],
                            checksums@[acc_n[j]]@,
                            node@,
                            pid,
                        ) by {
                            if j < acc_i.len() {
                                assert(file_sink@[file0.len() + j] == file_prev[file0.len() + j]);
                            } else {
                                assert(file_sink@[file0.len() + j]@ == e@);
                            }
                        }
                    }
                    if mode != Destination::File {
                        assert forall|j: int| 0 <= j < acc_n.len() implies spec_delivered(
                            #[trigger] net_sink@[net0.len() + j]@,
                            rv,
                            rs[acc_n[j]],
                            checksums@[acc_n[j]]@,
                            node@,
                            pid,
                        ) by {
                            if j < acc_i.len() {
                                assert(net_sink@[net0.len() + j] == net_prev[net0.len() + j]);
                            } else {
                                assert(net_sink@[net0.len() + j]@ == e@);
                            }
                        }
                    }
                }
                delivered = delivered + 1;
            },
            None => {
                proof {
                    assert(acc_n =~= acc_i);
                }
            },
        }
        i = i + 1;
    }
    delivered
}

} // verus!
