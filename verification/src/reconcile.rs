//! Provider name resolution and reconciliation planning.
//!
//! The provider hands back listings of zones and DNS records; the functions
//! here resolve configured names against those listings and plan the patch
//! requests for one zone: which records get which resolved address, which
//! are skipped because their address family could not be resolved this run,
//! and which are reported as unsupported.

use vstd::prelude::*;

use crate::ip::{IpAddress, Ipv4Address, Ipv6Address};

verus! {

/// A zone as the provider lists it: its opaque identifier and its name.
#[derive(Clone, Debug)]
pub struct ListZone {
    pub id: String,
    pub name: String,
}

/// A DNS record as the provider lists it.
#[derive(Clone, Debug)]
pub struct ListDnsRecords {
    pub content: String,
    pub id: String,
    pub name: String,
    pub proxied: bool,
    pub ttl: u32,
    pub type_: String,
    pub zone_id: String,
    pub zone_name: String,
}

impl ListZone {
    /// A copy equal to the original.
    pub fn duplicate(&self) -> (r: ListZone)
        ensures
            r == *self,
    {
        ListZone { id: self.id.clone(), name: self.name.clone() }
    }
}

impl ListDnsRecords {
    /// A copy equal to the original.
    pub fn duplicate(&self) -> (r: ListDnsRecords)
        ensures
            r == *self,
    {
        ListDnsRecords {
            content: self.content.clone(),
            id: self.id.clone(),
            name: self.name.clone(),
            proxied: self.proxied,
            ttl: self.ttl,
            type_: self.type_.clone(),
            zone_id: self.zone_id.clone(),
            zone_name: self.zone_name.clone(),
        }
    }
}

/// The DNS record types the reconciler can manage: address records of
/// either family; everything else is reported, never updated.
#[derive(PartialEq, Eq, Structural, Clone, Copy, Debug)]
pub enum RecordKind {
    A,
    Aaaa,
    Other,
}

/// The character's code with an ASCII lower-case letter folded to upper
/// case.
pub open spec fn upper_code(c: char) -> int {
    if 97 <= c as u32 <= 122 {
        c as u32 - 32
    } else {
        c as u32 as int
    }
}

/// How a record's type discriminator is read, case-insensitively: `A` and
/// `AAAA` in any capitalisation; everything else is unsupported.
pub open spec fn spec_record_kind(t: Seq<char>) -> RecordKind {
    if t.len() == 1 && upper_code(t[0]) == 65 {
        RecordKind::A
    } else if t.len() == 4 && (forall|i: int| 0 <= i < 4 ==> upper_code(#[trigger] t[i]) == 65) {
        RecordKind::Aaaa
    } else {
        RecordKind::Other
    }
}

fn upper_char(c: char) -> (r: u32)
    ensures
        r == upper_code(c),
{
    let u = c as u32;
    if 97 <= u && u <= 122 {
        u - 32
    } else {
        u
    }
}

/// Classifies a record's type discriminator, case-insensitively.
pub fn record_kind(t: &str) -> (r: RecordKind)
    ensures
        r == spec_record_kind(t@),
{
    let n = t.unicode_len();
    if n == 1 && upper_char(t.get_char(0)) == 65 {
        RecordKind::A
    } else if n == 4 && upper_char(t.get_char(0)) == 65 && upper_char(t.get_char(1)) == 65
        && upper_char(t.get_char(2)) == 65 && upper_char(t.get_char(3)) == 65 {
        proof {
            assert(forall|i: int| 0 <= i < 4 ==> upper_code(#[trigger] t@[i]) == 65);
        }
        RecordKind::Aaaa
    } else {
        RecordKind::Other
    }
}

/// The fully-qualified record name: the configured fragment joined to the
/// zone name with a dot.
pub fn fqdn(record: &String, zone: &String) -> (r: String)
    ensures
        r@ == record@ + "."@ + zone@,
{
    let mut s = record.clone();
    s.append(".");
    s.append(zone.as_str());
    s
}

/// The first zone in the provider's listing whose name equals `name`
/// exactly; a zone matches no name but its own.
pub open spec fn find_zone(zones: Seq<ListZone>, name: Seq<char>) -> Option<ListZone>
    decreases zones.len(),
{
    if zones.len() == 0 {
        None
    } else if zones.first().name@ == name {
        Some(zones.first())
    } else {
        find_zone(zones.drop_first(), name)
    }
}

/// `find_zone` yields a zone exactly when one is named `name`, and then the
/// first such zone.
pub proof fn lemma_find_zone(zones: Seq<ListZone>, name: Seq<char>)
    ensures
        (find_zone(zones, name) is None) <==> (forall|i: int|
            0 <= i < zones.len() ==> (#[trigger] zones[i]).name@ != name),
        find_zone(zones, name) matches Some(z) ==> z.name@ == name && (exists|i: int|
            0 <= i < zones.len() && zones[i] == z && (forall|j: int|
                0 <= j < i ==> (#[trigger] zones[j]).name@ != name)),
    decreases zones.len(),
{
    if zones.len() == 0 {
    } else if zones.first().name@ == name {
        assert(zones[0].name@ == name);
    } else {
        let rest = zones.drop_first();
        lemma_find_zone(rest, name);
        assert(forall|i: int| 0 <= i < rest.len() ==> rest[i] == zones[i + 1]);
        if find_zone(zones, name) is None {
            assert forall|i: int| 0 <= i < zones.len() implies (#[trigger] zones[i]).name@
                != name by {
                if i > 0 {
                    assert(rest[i - 1].name@ != name);
                }
            }
        } else {
            let z = find_zone(zones, name)->Some_0;
            let i = choose|i: int|
                0 <= i < rest.len() && rest[i] == z && (forall|j: int|
                    0 <= j < i ==> (#[trigger] rest[j]).name@ != name);
            assert(zones[i + 1] == z);
            assert forall|j: int| 0 <= j < i + 1 implies (#[trigger] zones[j]).name@ != name by {
                if j > 0 {
                    assert(rest[j - 1].name@ != name);
                }
            }
        }
    }
}

/// Looks a configured zone name up in the provider's zone listing; exact
/// name match only.
#[verifier::loop_isolation(false)]
pub fn obtain_zone(data: &Vec<ListZone>, zone_name: &String) -> (r: Option<ListZone>)
    ensures
        r == find_zone(data@, zone_name@),
{
    proof {
        assert(data@.skip(0) =~= data@);
    }
    let mut i: usize = 0;
    while i < data.len()
        invariant
            i <= data@.len(),
            find_zone(data@, zone_name@) == find_zone(data@.skip(i as int), zone_name@),
        decreases data@.len() - i,
    {
        proof {
            assert(data@.skip(i as int).first() == data@[i as int]);
            assert(data@.skip(i as int).drop_first() =~= data@.skip(i as int + 1));
        }
        let z = &data[i];
        if z.name == *zone_name {
            return Some(z.duplicate());
        }
        i = i + 1;
    }
    proof {
        assert(data@.skip(data@.len() as int) =~= Seq::<ListZone>::empty());
    }
    None
}

/// A record counts towards a configured name when its fully-qualified name
/// matches exactly and its type is an address type.
pub open spec fn is_address_record(r: ListDnsRecords, name: Seq<char>) -> bool {
    r.name@ == name && spec_record_kind(r.type_@) != RecordKind::Other
}

/// A record that matches the configured name but is no address record; it
/// is reported as unsupported, never silently dropped.
pub open spec fn is_unsupported_record(r: ListDnsRecords, name: Seq<char>) -> bool {
    r.name@ == name && spec_record_kind(r.type_@) == RecordKind::Other
}

/// The update candidates for a fully-qualified name: records matching the
/// name exactly, restricted to address types, in listing order.
#[verifier::loop_isolation(false)]
pub fn obtain_records(data: &Vec<ListDnsRecords>, record_name: &String) -> (r: Vec<
    ListDnsRecords,
>)
    ensures
        r@ == data@.filter(|x: ListDnsRecords| is_address_record(x, record_name@)),
{
    let ghost pred = |x: ListDnsRecords| is_address_record(x, record_name@);
    let mut out: Vec<ListDnsRecords> = Vec::new();
    proof {
        assert(data@.take(0).filter(pred) =~= Seq::<ListDnsRecords>::empty());
    }
    let mut i: usize = 0;
    while i < data.len()
        invariant
            i <= data@.len(),
            out@ == data@.take(i as int).filter(pred),
        decreases data@.len() - i,
    {
        proof {
            data@.take(i as int).lemma_filter_push(data@[i as int], pred);
            assert(data@.take(i + 1) =~= data@.take(i as int).push(data@[i as int]));
        }
        let rec = &data[i];
        if rec.name == *record_name {
            let kind = record_kind(rec.type_.as_str());
            if matches!(kind, RecordKind::A | RecordKind::Aaaa) {
                out.push(rec.duplicate());
            }
        }
        i = i + 1;
    }
    proof {
        assert(data@.take(data@.len() as int) =~= data@);
    }
    out
}

/// The name-matching records of unsupported type for a fully-qualified
/// name, in listing order.
#[verifier::loop_isolation(false)]
pub fn non_address_records(data: &Vec<ListDnsRecords>, record_name: &String) -> (r: Vec<
    ListDnsRecords,
>)
    ensures
        r@ == data@.filter(|x: ListDnsRecords| is_unsupported_record(x, record_name@)),
{
    let ghost pred = |x: ListDnsRecords| is_unsupported_record(x, record_name@);
    let mut out: Vec<ListDnsRecords> = Vec::new();
    proof {
        assert(data@.take(0).filter(pred) =~= Seq::<ListDnsRecords>::empty());
    }
    let mut i: usize = 0;
    while i < data.len()
        invariant
            i <= data@.len(),
            out@ == data@.take(i as int).filter(pred),
        decreases data@.len() - i,
    {
        proof {
            data@.take(i as int).lemma_filter_push(data@[i as int], pred);
            assert(data@.take(i + 1) =~= data@.take(i as int).push(data@[i as int]));
        }
        let rec = &data[i];
        if rec.name == *record_name {
            let kind = record_kind(rec.type_.as_str());
            if matches!(kind, RecordKind::Other) {
                out.push(rec.duplicate());
            }
        }
        i = i + 1;
    }
    proof {
        assert(data@.take(data@.len() as int) =~= data@);
    }
    out
}

/// One unit of a zone's reconciliation plan: a patch to submit, a record
/// skipped because its address family was not resolved this run, a
/// name-matching record of unsupported type to report, or a configured
/// fragment for which the provider lists no address record.
#[derive(PartialEq, Eq, Clone, Debug)]
pub enum PlanStep {
    Patch { record_id: String, content: IpAddress },
    SkipUnresolved { record_id: String, kind: RecordKind },
    Unsupported { record_id: String },
    FragmentNotFound { name: String },
}

/// The mathematical shape of a plan step, with names as character
/// sequences.
pub enum PlanStepView {
    Patch { record_id: Seq<char>, content: IpAddress },
    SkipUnresolved { record_id: Seq<char>, kind: RecordKind },
    Unsupported { record_id: Seq<char> },
    FragmentNotFound { name: Seq<char> },
}

impl View for PlanStep {
    type V = PlanStepView;

    open spec fn view(&self) -> PlanStepView {
        match self {
            PlanStep::Patch { record_id, content } => PlanStepView::Patch {
                record_id: record_id@,
                content: *content,
            },
            PlanStep::SkipUnresolved { record_id, kind } => PlanStepView::SkipUnresolved {
                record_id: record_id@,
                kind: *kind,
            },
            PlanStep::Unsupported { record_id } => PlanStepView::Unsupported {
                record_id: record_id@,
            },
            PlanStep::FragmentNotFound { name } => PlanStepView::FragmentNotFound { name: name@ },
        }
    }
}

impl DeepView for PlanStep {
    type V = PlanStepView;

    open spec fn deep_view(&self) -> PlanStepView {
        self.view()
    }
}

/// What the reconciler plans for one listed record: the resolved address of
/// the record's family is patched in; a record whose family was not
/// resolved this run is skipped, never written with a stale value; a record
/// of any other type is reported as unsupported.
pub open spec fn spec_plan_record(
    r: ListDnsRecords,
    v4: Option<Ipv4Address>,
    v6: Option<Ipv6Address>,
) -> PlanStepView {
    match spec_record_kind(r.type_@) {
        RecordKind::A => match v4 {
            Some(a) => PlanStepView::Patch { record_id: r.id@, content: IpAddress::V4(a) },
            None => PlanStepView::SkipUnresolved { record_id: r.id@, kind: RecordKind::A },
        },
        RecordKind::Aaaa => match v6 {
            Some(a) => PlanStepView::Patch { record_id: r.id@, content: IpAddress::V6(a) },
            None => PlanStepView::SkipUnresolved { record_id: r.id@, kind: RecordKind::Aaaa },
        },
        RecordKind::Other => PlanStepView::Unsupported { record_id: r.id@ },
    }
}

/// Plans the update of one listed record; see [`spec_plan_record`].
pub fn plan_record(record: &ListDnsRecords, v4: Option<Ipv4Address>, v6: Option<Ipv6Address>) -> (r:
    PlanStep)
    ensures
        r@ == spec_plan_record(*record, v4, v6),
{
    let kind = record_kind(record.type_.as_str());
    match kind {
        RecordKind::A => match v4 {
            Some(a) => PlanStep::Patch { record_id: record.id.clone(), content: IpAddress::V4(a) },
            None => PlanStep::SkipUnresolved { record_id: record.id.clone(), kind: RecordKind::A },
        },
        RecordKind::Aaaa => match v6 {
            Some(a) => PlanStep::Patch { record_id: record.id.clone(), content: IpAddress::V6(a) },
            None => PlanStep::SkipUnresolved {
                record_id: record.id.clone(),
                kind: RecordKind::Aaaa,
            },
        },
        RecordKind::Other => PlanStep::Unsupported { record_id: record.id.clone() },
    }
}

/// The fully-qualified name of a configured record fragment.
pub open spec fn spec_fqdn(fragment: Seq<char>, zone: Seq<char>) -> Seq<char> {
    fragment + seq!['.'] + zone
}

/// The plan for one configured record fragment: the name-matching records
/// of unsupported type are reported first; then, when the provider lists no
/// address-record candidate for the name, the fragment is marked not found,
/// and otherwise each candidate is planned in listing order.
pub open spec fn spec_plan_fragment(
    records: Seq<ListDnsRecords>,
    name: Seq<char>,
    v4: Option<Ipv4Address>,
    v6: Option<Ipv6Address>,
) -> Seq<PlanStepView> {
    let unsupported = records.filter(|x: ListDnsRecords| is_unsupported_record(x, name));
    let cands = records.filter(|x: ListDnsRecords| is_address_record(x, name));
    unsupported.map_values(|x: ListDnsRecords| spec_plan_record(x, v4, v6)) + if cands.len() == 0 {
        seq![PlanStepView::FragmentNotFound { name }]
    } else {
        cands.map_values(|x: ListDnsRecords| spec_plan_record(x, v4, v6))
    }
}

/// The plan for one zone: the plans of its configured fragments, in
/// configuration order.
pub open spec fn spec_plan_zone(
    records: Seq<ListDnsRecords>,
    fragments: Seq<Seq<char>>,
    zone: Seq<char>,
    v4: Option<Ipv4Address>,
    v6: Option<Ipv6Address>,
) -> Seq<PlanStepView>
    decreases fragments.len(),
{
    if fragments.len() == 0 {
        Seq::empty()
    } else {
        spec_plan_zone(records, fragments.drop_last(), zone, v4, v6) + spec_plan_fragment(
            records,
            spec_fqdn(fragments.last(), zone),
            v4,
            v6,
        )
    }
}

proof fn lemma_deep_view_push(pre: Vec<PlanStep>, post: Vec<PlanStep>, s: PlanStep)
    requires
        post@ == pre@.push(s),
    ensures
        post.deep_view() =~= pre.deep_view().push(s.deep_view()),
{
    assert forall|k: int| 0 <= k < post@.len() implies post.deep_view()[k] == pre.deep_view().push(
        s.deep_view(),
    )[k] by {
        if k < pre@.len() {
            assert(post@[k] == pre@[k]);
        } else {
            assert(post@[k] == s);
        }
    }
}

proof fn lemma_deep_view_append(pre: Vec<PlanStep>, post: Vec<PlanStep>, tail: Seq<PlanStep>)
    requires
        post@ == pre@ + tail,
    ensures
        post.deep_view() =~= pre.deep_view() + Seq::new(tail.len(), |k: int| tail[k].deep_view()),
{
    assert forall|k: int| 0 <= k < post@.len() implies post.deep_view()[k] == (pre.deep_view()
        + Seq::new(tail.len(), |k: int| tail[k].deep_view()))[k] by {
        if k < pre@.len() {
            assert(post@[k] == pre@[k]);
        } else {
            assert(post@[k] == tail[k - pre@.len()]);
        }
    }
}

/// Plans one zone's reconciliation; see [`spec_plan_zone`]. A failure on
/// one record never disturbs the plan for its siblings.
#[verifier::loop_isolation(false)]
pub fn plan_zone(
    records: &Vec<ListDnsRecords>,
    fragments: &Vec<String>,
    zone_name: &String,
    v4: Option<Ipv4Address>,
    v6: Option<Ipv6Address>,
) -> (r: Vec<PlanStep>)
    ensures
        r.deep_view() == spec_plan_zone(
            records@,
            fragments@.map_values(|s: String| s@),
            zone_name@,
            v4,
            v6,
        ),
{
    let ghost gfrags = fragments@.map_values(|s: String| s@);
    let ghost f = |x: ListDnsRecords| spec_plan_record(x, v4, v6);
    let mut out: Vec<PlanStep> = Vec::new();
    proof {
        assert(gfrags.take(0) =~= Seq::<Seq<char>>::empty());
        assert(out.deep_view() =~= spec_plan_zone(records@, gfrags.take(0), zone_name@, v4, v6));
    }
    let mut fi: usize = 0;
    while fi < fragments.len()
        invariant
            fi <= fragments@.len(),
            out.deep_view() == spec_plan_zone(records@, gfrags.take(fi as int), zone_name@, v4, v6),
        decreases fragments@.len() - fi,
    {
        let name = fqdn(&fragments[fi], zone_name);
        proof {
            reveal_strlit(".");
            assert(name@ =~= spec_fqdn(gfrags[fi as int], zone_name@));
        }
        let ghost base = out.deep_view();
        let ghost upred = |x: ListDnsRecords| is_unsupported_record(x, name@);
        proof {
            assert(records@.take(0).filter(upred) =~= Seq::<ListDnsRecords>::empty());
            assert(out.deep_view() =~= base + records@.take(0).filter(upred).map_values(f));
        }
        let mut i: usize = 0;
        while i < records.len()
            invariant
                i <= records@.len(),
                out.deep_view() == base + records@.take(i as int).filter(upred).map_values(f),
            decreases records@.len() - i,
        {
            proof {
                records@.take(i as int).lemma_filter_push(records@[i as int], upred);
                assert(records@.take(i + 1) =~= records@.take(i as int).push(records@[i as int]));
            }
            let rec = &records[i];
            if rec.name == name {
                let kind = record_kind(rec.type_.as_str());
                if matches!(kind, RecordKind::Other) {
                    let step = PlanStep::Unsupported { record_id: rec.id.clone() };
                    let ghost gstep = step;
                    let ghost pre = out;
                    out.push(step);
                    proof {
                        lemma_deep_view_push(pre, out, gstep);
                        let prev = records@.take(i as int).filter(upred);
                        assert(gstep.deep_view() == f(records@[i as int]));
                        assert(prev.push(records@[i as int]).map_values(f) =~= prev.map_values(
                            f,
                        ).push(f(records@[i as int])));
                        assert(out.deep_view() =~= base + prev.map_values(f).push(
                            f(records@[i as int]),
                        ));
                    }
                }
            }
            i = i + 1;
        }
        proof {
            assert(records@.take(records@.len() as int) =~= records@);
        }
        let ghost cpred = |x: ListDnsRecords| is_address_record(x, name@);
        let mut pending: Vec<PlanStep> = Vec::new();
        proof {
            assert(records@.take(0).filter(cpred) =~= Seq::<ListDnsRecords>::empty());
            assert(pending.deep_view() =~= records@.take(0).filter(cpred).map_values(f));
        }
        let mut j: usize = 0;
        while j < records.len()
            invariant
                j <= records@.len(),
                pending.deep_view() == records@.take(j as int).filter(cpred).map_values(f),
            decreases records@.len() - j,
        {
            proof {
                records@.take(j as int).lemma_filter_push(records@[j as int], cpred);
                assert(records@.take(j + 1) =~= records@.take(j as int).push(records@[j as int]));
            }
            let rec = &records[j];
            if rec.name == name {
                let kind = record_kind(rec.type_.as_str());
                if matches!(kind, RecordKind::A | RecordKind::Aaaa) {
                    let step = plan_record(rec, v4, v6);
                    let ghost gstep = step;
                    let ghost pre = pending;
                    pending.push(step);
                    proof {
                        lemma_deep_view_push(pre, pending, gstep);
                        let prev = records@.take(j as int).filter(cpred);
                        assert(prev.push(records@[j as int]).map_values(f) =~= prev.map_values(
                            f,
                        ).push(f(records@[j as int])));
                        assert(pending.deep_view() =~= prev.map_values(f).push(
                            f(records@[j as int]),
                        ));
                    }
                }
            }
            j = j + 1;
        }
        proof {
            assert(records@.take(records@.len() as int) =~= records@);
        }
        let ghost pend = pending.deep_view();
        let ghost pending_seq = pending@;
        let ghost pre = out;
        if pending.len() == 0 {
            let step = PlanStep::FragmentNotFound { name };
            let ghost gstep = step;
            out.push(step);
            proof {
                lemma_deep_view_push(pre, out, gstep);
            }
        } else {
            out.append(&mut pending);
            proof {
                lemma_deep_view_append(pre, out, pending_seq);
                assert(Seq::new(pending_seq.len(), |k: int| pending_seq[k].deep_view()) =~= pend);
            }
        }
        proof {
            let fragment_plan = spec_plan_fragment(records@, name@, v4, v6);
            let unsup = records@.filter(upred).map_values(f);
            let cands = records@.filter(cpred);
            assert(pend.len() == cands.len());
            if pend.len() == 0 {
                assert(out.deep_view() =~= base + unsup + seq![
                    PlanStepView::FragmentNotFound { name: name@ },
                ]);
            } else {
                assert(out.deep_view() =~= base + unsup + pend);
            }
            assert(out.deep_view() =~= base + fragment_plan);
            assert(gfrags.take(fi + 1).drop_last() =~= gfrags.take(fi as int));
            assert(out.deep_view() == spec_plan_zone(
                records@,
                gfrags.take(fi + 1),
                zone_name@,
                v4,
                v6,
            ));
        }
        fi = fi + 1;
    }
    proof {
        assert(gfrags.take(gfrags.len() as int) =~= gfrags);
    }
    out
}

/// Whether a plan step would write an IPv4 address.
pub open spec fn is_v4_patch(s: PlanStepView) -> bool {
    s matches PlanStepView::Patch { content: IpAddress::V4(_), .. }
}

proof fn lemma_fragment_skips_unresolved_v4(
    records: Seq<ListDnsRecords>,
    name: Seq<char>,
    v6: Option<Ipv6Address>,
)
    ensures
        forall|i: int|
            0 <= i < spec_plan_fragment(records, name, None, v6).len() ==> !is_v4_patch(
                #[trigger] spec_plan_fragment(records, name, None, v6)[i],
            ),
{
    let plan = spec_plan_fragment(records, name, None, v6);
    let unsupported = records.filter(|x: ListDnsRecords| is_unsupported_record(x, name));
    let cands = records.filter(|x: ListDnsRecords| is_address_record(x, name));
    let f = |x: ListDnsRecords| spec_plan_record(x, None, v6);
    assert forall|i: int| 0 <= i < plan.len() implies !is_v4_patch(plan[i]) by {
        if i < unsupported.len() {
            assert(plan[i] == f(unsupported[i]));
        } else if cands.len() > 0 {
            assert(plan[i] == f(cands[i - unsupported.len()]));
        }
    }
}

/// When the IPv4 address could not be resolved this run, no step of the
/// zone's plan writes an IPv4 address: every `A`-type update is skipped.
pub proof fn lemma_plan_skips_unresolved_v4(
    records: Seq<ListDnsRecords>,
    fragments: Seq<Seq<char>>,
    zone: Seq<char>,
    v6: Option<Ipv6Address>,
)
    ensures
        forall|i: int|
            0 <= i < spec_plan_zone(records, fragments, zone, None, v6).len() ==> !is_v4_patch(
                #[trigger] spec_plan_zone(records, fragments, zone, None, v6)[i],
            ),
    decreases fragments.len(),
{
    if fragments.len() > 0 {
        let plan = spec_plan_zone(records, fragments, zone, None, v6);
        let prefix = spec_plan_zone(records, fragments.drop_last(), zone, None, v6);
        let last = spec_plan_fragment(records, spec_fqdn(fragments.last(), zone), None, v6);
        lemma_plan_skips_unresolved_v4(records, fragments.drop_last(), zone, v6);
        lemma_fragment_skips_unresolved_v4(records, spec_fqdn(fragments.last(), zone), v6);
        assert forall|i: int| 0 <= i < plan.len() implies !is_v4_patch(plan[i]) by {
            if i < prefix.len() {
                assert(plan[i] == prefix[i]);
            } else {
                assert(plan[i] == last[i - prefix.len()]);
            }
        }
    }
}

/// An `AAAA`-type update for the same zone still proceeds: whenever some
/// record is an `AAAA` candidate for one of the configured fragments and
/// the IPv6 address was resolved, the zone's plan carries a patch writing
/// it, whatever became of IPv4 resolution this run.
pub proof fn lemma_plan_updates_resolved_v6(
    records: Seq<ListDnsRecords>,
    fragments: Seq<Seq<char>>,
    zone: Seq<char>,
    v4: Option<Ipv4Address>,
    a6: Ipv6Address,
    j: int,
    k: int,
)
    requires
        0 <= k < fragments.len(),
        0 <= j < records.len(),
        is_address_record(records[j], spec_fqdn(fragments[k], zone)),
        spec_record_kind(records[j].type_@) == RecordKind::Aaaa,
    ensures
        spec_plan_zone(records, fragments, zone, v4, Some(a6)).contains(
            PlanStepView::Patch { record_id: records[j].id@, content: IpAddress::V6(a6) },
        ),
    decreases fragments.len(),
{
    let plan = spec_plan_zone(records, fragments, zone, v4, Some(a6));
    let prefix = spec_plan_zone(records, fragments.drop_last(), zone, v4, Some(a6));
    let last = spec_plan_fragment(records, spec_fqdn(fragments.last(), zone), v4, Some(a6));
    let step = PlanStepView::Patch { record_id: records[j].id@, content: IpAddress::V6(a6) };
    if k == fragments.len() - 1 {
        let name = spec_fqdn(fragments[k], zone);
        let cpred = |x: ListDnsRecords| is_address_record(x, name);
        let cands = records.filter(cpred);
        let unsupported = records.filter(|x: ListDnsRecords| is_unsupported_record(x, name));
        let f = |x: ListDnsRecords| spec_plan_record(x, v4, Some(a6));
        records.lemma_filter_contains(cpred, j);
        let ci = choose|ci: int| 0 <= ci < cands.len() && cands[ci] == records[j];
        assert(f(cands[ci]) == step);
        assert(last[unsupported.len() + ci] == step);
        assert(plan[prefix.len() + unsupported.len() + ci] == step);
    } else {
        lemma_plan_updates_resolved_v6(records, fragments.drop_last(), zone, v4, a6, j, k);
        let i = choose|i: int| 0 <= i < prefix.len() && prefix[i] == step;
        assert(plan[i] == step);
    }
}

} // verus!
