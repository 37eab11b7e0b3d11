//! Runtime rules: topics with subscribers but no publishers, and the reverse;
//! topics whose publishers and subscribers use different message types, and
//! services whose servers and clients use different service types.
//!
//! Each use of a topic or service records the type it uses. A use for which
//! the graph records no type counts as using the type of its topic or service.

use vstd::prelude::*;
use crate::checks::model::{Finding, FindingSpec, Location, LocationSpec, Severity, finding_views};
use crate::model::{Package, Project, RuntimeGraph, RuntimeService, RuntimeTopic};
use crate::project::runtime::{
    EdgeKind, MentionSpec, lemma_runtime_graph_wf, mention_types, normalize_topic, of_kind,
    runtime_graph_spec, runtime_mentions, service_keys, service_views, topic_keys, topic_views,
};
use crate::text::{chars_eq_str, chars_of, decimal, decimal_chars, push_chars, push_str, str_views, string_of};

verus! {

/// How many of the (node, target) edges end at target `i`.
pub open spec fn count_at(edges: Seq<(usize, usize)>, i: int) -> nat
    decreases edges.len(),
{
    if edges.len() == 0 {
        0
    } else {
        count_at(edges.drop_last(), i) + (if edges.last().1 == i {
            1nat
        } else {
            0nat
        })
    }
}

/// The location of a topic finding: the topic's message type as context.
pub open spec fn topic_location(msg_type: Seq<char>) -> LocationSpec {
    LocationSpec { package: None, file: None, line: None, context: Some("msg_type: "@ + msg_type) }
}

/// A topic with `subs` subscribers and no publisher.
pub open spec fn topic_no_publisher_finding(t: RuntimeTopic, subs: nat) -> FindingSpec {
    FindingSpec {
        rule_id: "runtime/topic_no_publisher"@,
        severity: Severity::Warn,
        message: "Topic '"@ + t.name@ + "' has "@ + decimal(subs) + " subscriber(s) but no publishers"@,
        location: Some(topic_location(t.msg_type@)),
        fix_hint: None,
    }
}

/// A topic with `pubs` publishers and no subscriber.
pub open spec fn topic_no_subscriber_finding(t: RuntimeTopic, pubs: nat) -> FindingSpec {
    FindingSpec {
        rule_id: "runtime/topic_no_subscriber"@,
        severity: Severity::Info,
        message: "Topic '"@ + t.name@ + "' has "@ + decimal(pubs) + " publisher(s) but no subscribers"@,
        location: Some(topic_location(t.msg_type@)),
        fix_hint: None,
    }
}

/// The types of the uses (edges) that end at target `i`, in edge order: use
/// `k` has type `types[k]`, or `fallback` where `types` records none for it.
pub open spec fn types_at(edges: Seq<(usize, usize)>, types: Seq<Seq<char>>, fallback: Seq<char>, i: int) -> Seq<Seq<char>>
    decreases edges.len(),
{
    if edges.len() == 0 {
        Seq::empty()
    } else {
        let rest = types_at(edges.drop_last(), types, fallback, i);
        let k = edges.len() - 1;
        if edges.last().1 == i {
            rest.push(if k < types.len() { types[k] } else { fallback })
        } else {
            rest
        }
    }
}

/// What `{:?}` writes for a list of strings (std's `Debug` for `Vec<String>`):
/// brackets around the quoted, escaped strings, separated by `, `.
pub uninterp spec fn debug_strings(v: Seq<Seq<char>>) -> Seq<char>;

/// The types that the publishers of topic `i` use.
pub open spec fn publisher_types(rg: RuntimeGraph, i: int) -> Seq<Seq<char>> {
    types_at(rg.topic_publishers@, str_views(rg.topic_publisher_types@), rg.topics@[i].msg_type@, i)
}

/// The types that the subscribers of topic `i` use.
pub open spec fn subscriber_types(rg: RuntimeGraph, i: int) -> Seq<Seq<char>> {
    types_at(rg.topic_subscribers@, str_views(rg.topic_subscriber_types@), rg.topics@[i].msg_type@, i)
}

/// The types that the servers of service `i` use.
pub open spec fn server_types(rg: RuntimeGraph, i: int) -> Seq<Seq<char>> {
    types_at(rg.service_servers@, str_views(rg.service_server_types@), rg.services@[i].srv_type@, i)
}

/// The types that the clients of service `i` use.
pub open spec fn client_types(rg: RuntimeGraph, i: int) -> Seq<Seq<char>> {
    types_at(rg.service_clients@, str_views(rg.service_client_types@), rg.services@[i].srv_type@, i)
}

/// Both sides use the topic or service, and the sets of types they use differ.
pub open spec fn types_mismatch(a: Seq<Seq<char>>, b: Seq<Seq<char>>) -> bool {
    a.len() > 0 && b.len() > 0 && a.to_set() != b.to_set()
}

/// A topic whose publishers use the types `pubs` and whose subscribers use
/// the types `subs`, with different sets of types.
pub open spec fn topic_type_mismatch_finding(t: RuntimeTopic, pubs: Seq<Seq<char>>, subs: Seq<Seq<char>>) -> FindingSpec {
    FindingSpec {
        rule_id: "runtime/topic_type_mismatch"@,
        severity: Severity::Error,
        message: "Topic '"@ + t.name@ + "' has publisher/subscriber type mismatch: publishers use "@
            + debug_strings(pubs) + ", subscribers use "@ + debug_strings(subs),
        location: Some(LocationSpec { package: None, file: None, line: None, context: Some(t.msg_type@) }),
        fix_hint: None,
    }
}

/// A service whose servers use the types `servers` and whose clients use the
/// types `clients`, with different sets of types.
pub open spec fn service_type_mismatch_finding(
    s: RuntimeService,
    servers: Seq<Seq<char>>,
    clients: Seq<Seq<char>>,
) -> FindingSpec {
    FindingSpec {
        rule_id: "runtime/service_type_mismatch"@,
        severity: Severity::Error,
        message: "Service '"@ + s.name@ + "' has server/client type mismatch: servers use "@
            + debug_strings(servers) + ", clients use "@ + debug_strings(clients),
        location: Some(LocationSpec { package: None, file: None, line: None, context: Some(s.srv_type@) }),
        fix_hint: None,
    }
}

/// The findings for topic `i`: no publisher, no subscriber, type mismatch.
pub open spec fn topic_findings(rg: RuntimeGraph, i: int) -> Seq<FindingSpec> {
    let t = rg.topics@[i];
    let pubs = count_at(rg.topic_publishers@, i);
    let subs = count_at(rg.topic_subscribers@, i);
    let pt = publisher_types(rg, i);
    let st = subscriber_types(rg, i);
    (if subs > 0 && pubs == 0 {
        seq![topic_no_publisher_finding(t, subs)]
    } else {
        Seq::empty()
    }) + (if pubs > 0 && subs == 0 {
        seq![topic_no_subscriber_finding(t, pubs)]
    } else {
        Seq::empty()
    }) + (if types_mismatch(pt, st) {
        seq![topic_type_mismatch_finding(t, pt, st)]
    } else {
        Seq::empty()
    })
}

/// The findings for topics `0..n`, topic by topic.
pub open spec fn topics_findings(rg: RuntimeGraph, n: int) -> Seq<FindingSpec>
    decreases n,
{
    if n <= 0 {
        Seq::empty()
    } else {
        topics_findings(rg, n - 1) + topic_findings(rg, n - 1)
    }
}

/// The finding for service `i`: a type mismatch.
pub open spec fn service_findings(rg: RuntimeGraph, i: int) -> Seq<FindingSpec> {
    let sv = server_types(rg, i);
    let cl = client_types(rg, i);
    if types_mismatch(sv, cl) {
        seq![service_type_mismatch_finding(rg.services@[i], sv, cl)]
    } else {
        Seq::empty()
    }
}

/// The findings for services `0..n`, service by service.
pub open spec fn services_findings(rg: RuntimeGraph, n: int) -> Seq<FindingSpec>
    decreases n,
{
    if n <= 0 {
        Seq::empty()
    } else {
        services_findings(rg, n - 1) + service_findings(rg, n - 1)
    }
}

/// What the runtime rules report: the topic findings, topic by topic, then the
/// service findings, service by service.
pub open spec fn runtime_findings(rg: RuntimeGraph) -> Seq<FindingSpec> {
    topics_findings(rg, rg.topics@.len() as int) + services_findings(rg, rg.services@.len() as int)
}

/// `{:?}` on a list of strings: std's `Debug` formatting, named by
/// `debug_strings`.
#[verifier::external_body]
fn debug_list(v: &Vec<String>) -> (r: String)
    ensures
        r@ == debug_strings(str_views(v@)),
{
    format!("{:?}", v)
}

/// The types of the uses that end at target `i`.
fn types_at_exec(edges: &Vec<(usize, usize)>, types: &Vec<String>, fallback: &String, i: usize) -> (r: Vec<String>)
    ensures
        str_views(r@) == types_at(edges@, str_views(types@), fallback@, i as int),
{
    let ghost tv = str_views(types@);
    let mut r: Vec<String> = Vec::new();
    let mut k: usize = 0;
    assert(str_views(r@) =~= types_at(edges@.take(0), tv, fallback@, i as int));
    while k < edges.len()
        invariant
            k <= edges@.len(),
            tv == str_views(types@),
            str_views(r@) == types_at(edges@.take(k as int), tv, fallback@, i as int),
        decreases edges.len() - k,
    {
        let ghost e = edges@.take(k + 1);
        assert(e.drop_last() =~= edges@.take(k as int));
        assert(e.last() == edges@[k as int]);
        if edges[k].1 == i {
            let ghost before = str_views(r@);
            if k < types.len() {
                r.push(types[k].clone());
            } else {
                r.push(fallback.clone());
            }
            assert(str_views(r@) =~= before.push(if k < tv.len() { tv[k as int] } else { fallback@ }));
        }
        k += 1;
    }
    assert(edges@.take(k as int) =~= edges@);
    r
}

/// Whether some string of `b` equals `s`.
fn contains_string(b: &Vec<String>, s: &String) -> (r: bool)
    ensures
        r == str_views(b@).contains(s@),
{
    let sv = chars_of(s.as_str());
    let mut k: usize = 0;
    while k < b.len()
        invariant
            k <= b@.len(),
            sv@ == s@,
            forall|j: int| 0 <= j < k ==> (#[trigger] str_views(b@)[j]) != s@,
        decreases b.len() - k,
    {
        if chars_eq_str(sv.as_slice(), b[k].as_str()) {
            assert(str_views(b@)[k as int] == s@);
            return true;
        }
        k += 1;
    }
    proof {
        if str_views(b@).contains(s@) {
            let j = choose|j: int| 0 <= j < str_views(b@).len() && str_views(b@)[j] == s@;
            assert(str_views(b@)[j] != s@);
        }
    }
    false
}

/// Whether every string of `a` occurs in `b`.
fn all_in(a: &Vec<String>, b: &Vec<String>) -> (r: bool)
    ensures
        r == (forall|j: int| 0 <= j < a@.len() ==> str_views(b@).contains(#[trigger] str_views(a@)[j])),
{
    let mut k: usize = 0;
    while k < a.len()
        invariant
            k <= a@.len(),
            forall|j: int| 0 <= j < k ==> str_views(b@).contains(#[trigger] str_views(a@)[j]),
        decreases a.len() - k,
    {
        if !contains_string(b, &a[k]) {
            assert(!str_views(b@).contains(str_views(a@)[k as int]));
            return false;
        }
        k += 1;
    }
    true
}

/// Whether the sides use the topic or service with different sets of types.
fn mismatch(a: &Vec<String>, b: &Vec<String>) -> (r: bool)
    ensures
        r == types_mismatch(str_views(a@), str_views(b@)),
{
    let ghost av = str_views(a@);
    let ghost bv = str_views(b@);
    if a.len() == 0 || b.len() == 0 {
        return false;
    }
    let ab = all_in(a, b);
    let ba = all_in(b, a);
    proof {
        if ab && ba {
            assert forall|x: Seq<char>| av.to_set().contains(x) <==> bv.to_set().contains(x) by {
                if av.contains(x) {
                    let j = choose|j: int| 0 <= j < av.len() && av[j] == x;
                    assert(bv.contains(av[j]));
                }
                if bv.contains(x) {
                    let j = choose|j: int| 0 <= j < bv.len() && bv[j] == x;
                    assert(av.contains(bv[j]));
                }
            }
            assert(av.to_set() =~= bv.to_set());
        } else if !ab {
            let j = choose|j: int| 0 <= j < a@.len() && !bv.contains(#[trigger] av[j]);
            assert(av.to_set().contains(av[j]));
            assert(!bv.to_set().contains(av[j]));
        } else {
            let j = choose|j: int| 0 <= j < b@.len() && !av.contains(#[trigger] bv[j]);
            assert(bv.to_set().contains(bv[j]));
            assert(!av.to_set().contains(bv[j]));
        }
    }
    !(ab && ba)
}

fn type_mismatch_finding(name: &String, ty: &String, a: &Vec<String>, b: &Vec<String>, topic: bool) -> (r: Finding)
    ensures
        topic ==> r@ == topic_type_mismatch_finding(
            RuntimeTopic { name: *name, msg_type: *ty },
            str_views(a@),
            str_views(b@),
        ),
        !topic ==> r@ == service_type_mismatch_finding(
            RuntimeService { name: *name, srv_type: *ty },
            str_views(a@),
            str_views(b@),
        ),
{
    let da = debug_list(a);
    let db = debug_list(b);
    let mut m: Vec<char> = Vec::new();
    if topic {
        push_str(&mut m, "Topic '");
    } else {
        push_str(&mut m, "Service '");
    }
    push_str(&mut m, name.as_str());
    if topic {
        push_str(&mut m, "' has publisher/subscriber type mismatch: publishers use ");
    } else {
        push_str(&mut m, "' has server/client type mismatch: servers use ");
    }
    push_str(&mut m, da.as_str());
    if topic {
        push_str(&mut m, ", subscribers use ");
    } else {
        push_str(&mut m, ", clients use ");
    }
    push_str(&mut m, db.as_str());
    let msg = string_of(m.as_slice());
    let tv = chars_of(ty.as_str());
    let loc = Location { package: None, file: None, line: None, context: Some(string_of(tv.as_slice())) };
    let f = if topic {
        Finding::new("runtime/topic_type_mismatch", Severity::Error, msg.as_str())
    } else {
        Finding::new("runtime/service_type_mismatch", Severity::Error, msg.as_str())
    }.with_location(loc);
    proof {
        if topic {
            let spec = topic_type_mismatch_finding(
                RuntimeTopic { name: *name, msg_type: *ty },
                str_views(a@),
                str_views(b@),
            );
            assert(f@.message =~= spec.message);
            assert(f@.location =~= spec.location);
        } else {
            let spec = service_type_mismatch_finding(
                RuntimeService { name: *name, srv_type: *ty },
                str_views(a@),
                str_views(b@),
            );
            assert(f@.message =~= spec.message);
            assert(f@.location =~= spec.location);
        }
    }
    f
}

/// The number of edges that end at target `i`.
fn count_edges_at(edges: &Vec<(usize, usize)>, i: usize) -> (r: usize)
    ensures
        r == count_at(edges@, i as int),
{
    let mut c: usize = 0;
    let mut k: usize = 0;
    while k < edges.len()
        invariant
            k <= edges@.len(),
            c == count_at(edges@.take(k as int), i as int),
            c <= k,
        decreases edges.len() - k,
    {
        assert(edges@.take(k + 1).drop_last() =~= edges@.take(k as int));
        if edges[k].1 == i {
            c += 1;
        }
        k += 1;
    }
    assert(edges@.take(k as int) =~= edges@);
    c
}

fn topic_finding(t: &RuntimeTopic, count: usize, publishers: bool) -> (r: Finding)
    ensures
        publishers ==> r@ == topic_no_subscriber_finding(*t, count as nat),
        !publishers ==> r@ == topic_no_publisher_finding(*t, count as nat),
{
    let mut m: Vec<char> = Vec::new();
    push_str(&mut m, "Topic '");
    push_str(&mut m, t.name.as_str());
    push_str(&mut m, "' has ");
    let d = decimal_chars(count);
    push_chars(&mut m, d.as_slice());
    if publishers {
        push_str(&mut m, " publisher(s) but no subscribers");
    } else {
        push_str(&mut m, " subscriber(s) but no publishers");
    }
    let msg = string_of(m.as_slice());
    let mut c: Vec<char> = Vec::new();
    push_str(&mut c, "msg_type: ");
    push_str(&mut c, t.msg_type.as_str());
    let loc = Location {
        package: None,
        file: None,
        line: None,
        context: Some(string_of(c.as_slice())),
    };
    let f = if publishers {
        Finding::new("runtime/topic_no_subscriber", Severity::Info, msg.as_str())
    } else {
        Finding::new("runtime/topic_no_publisher", Severity::Warn, msg.as_str())
    }.with_location(loc);
    proof {
        if publishers {
            assert(f@.message =~= topic_no_subscriber_finding(*t, count as nat).message);
            assert(f@.location =~= topic_no_subscriber_finding(*t, count as nat).location);
        } else {
            assert(f@.message =~= topic_no_publisher_finding(*t, count as nat).message);
            assert(f@.location =~= topic_no_publisher_finding(*t, count as nat).location);
        }
    }
    f
}

/// Runtime rules over the runtime graph, topic by topic: a warning for a topic
/// with subscribers but no publisher, an informational finding for a topic
/// with publishers but no subscriber, and an error for a topic whose
/// publishers and subscribers use different sets of message types; then,
/// service by service, an error for a service whose servers and clients use
/// different sets of service types.
pub fn check_runtime(project: &Project) -> (r: Vec<Finding>)
    ensures
        finding_views(r@) == runtime_findings(project.runtime_graph),
{
    let rg = &project.runtime_graph;
    let mut out: Vec<Finding> = Vec::new();
    let mut i: usize = 0;
    assert(finding_views(out@) =~= Seq::<FindingSpec>::empty());
    while i < rg.topics.len()
        invariant
            i <= rg.topics@.len(),
            finding_views(out@) == topics_findings(*rg, i as int),
        decreases rg.topics.len() - i,
    {
        let ghost before = finding_views(out@);
        let pubs = count_edges_at(&rg.topic_publishers, i);
        let subs = count_edges_at(&rg.topic_subscribers, i);
        let topic = &rg.topics[i];
        if subs > 0 && pubs == 0 {
            out.push(topic_finding(topic, subs, false));
        }
        if pubs > 0 && subs == 0 {
            out.push(topic_finding(topic, pubs, true));
        }
        let pt = types_at_exec(&rg.topic_publishers, &rg.topic_publisher_types, &topic.msg_type, i);
        let st = types_at_exec(&rg.topic_subscribers, &rg.topic_subscriber_types, &topic.msg_type, i);
        if mismatch(&pt, &st) {
            out.push(type_mismatch_finding(&topic.name, &topic.msg_type, &pt, &st, true));
        }
        proof {
            let t = rg.topics@[i as int];
            assert(RuntimeTopic { name: t.name, msg_type: t.msg_type } == t);
        }
        assert(finding_views(out@) =~= before + topic_findings(*rg, i as int));
        i += 1;
    }
    let mut j: usize = 0;
    assert(finding_views(out@) =~= topics_findings(*rg, rg.topics@.len() as int) + services_findings(*rg, 0));
    while j < rg.services.len()
        invariant
            j <= rg.services@.len(),
            finding_views(out@) == topics_findings(*rg, rg.topics@.len() as int) + services_findings(*rg, j as int),
        decreases rg.services.len() - j,
    {
        let ghost before = finding_views(out@);
        let svc = &rg.services[j];
        let sv = types_at_exec(&rg.service_servers, &rg.service_server_types, &svc.srv_type, j);
        let cl = types_at_exec(&rg.service_clients, &rg.service_client_types, &svc.srv_type, j);
        if mismatch(&sv, &cl) {
            out.push(type_mismatch_finding(&svc.name, &svc.srv_type, &sv, &cl, false));
        }
        proof {
            let s = rg.services@[j as int];
            assert(RuntimeService { name: s.name, srv_type: s.srv_type } == s);
        }
        assert(finding_views(out@) =~= before + service_findings(*rg, j as int));
        j += 1;
    }
    out
}

// =============================================================================
// Type mismatches in the runtime graph of a set of packages
// =============================================================================

/// The key under which a topic (`norm`: its name up to leading slashes) or a
/// service (its name) is found.
pub open spec fn key_of(name: Seq<char>, norm: bool) -> Seq<char> {
    if norm {
        normalize_topic(name)
    } else {
        name
    }
}

/// The types of the mentions whose key is `key`, in order.
pub open spec fn types_named(ms: Seq<MentionSpec>, key: Seq<char>, norm: bool) -> Seq<Seq<char>>
    decreases ms.len(),
{
    if ms.len() == 0 {
        Seq::empty()
    } else {
        let rest = types_named(ms.drop_last(), key, norm);
        if key_of(ms.last().name, norm) == key {
            rest.push(ms.last().ty)
        } else {
            rest
        }
    }
}

/// The types of the uses of target `i` are the types of the mentions of its
/// key, where each use is one mention, joined to the target of its key, and
/// the targets' keys are distinct.
proof fn lemma_types_at_named(
    edges: Seq<(usize, usize)>,
    targets: Seq<(Seq<char>, Seq<char>)>,
    ms: Seq<MentionSpec>,
    types: Seq<Seq<char>>,
    fallback: Seq<char>,
    i: int,
    norm: bool,
)
    requires
        edges.len() == ms.len(),
        types.len() >= ms.len(),
        forall|j: int| 0 <= j < ms.len() ==> types[j] == (#[trigger] ms[j]).ty,
        forall|j: int|
            0 <= j < edges.len() ==> (#[trigger] edges[j]).1 < targets.len() && key_of(
                targets[edges[j].1 as int].0,
                norm,
            ) == key_of(ms[j].name, norm),
        forall|a: int, b: int|
            0 <= a < targets.len() && 0 <= b < targets.len() && a != b ==> key_of(
                #[trigger] targets[a].0,
                norm,
            ) != key_of(#[trigger] targets[b].0, norm),
        0 <= i < targets.len(),
    ensures
        types_at(edges, types, fallback, i) == types_named(ms, key_of(targets[i].0, norm), norm),
    decreases edges.len(),
{
    if edges.len() > 0 {
        let k = edges.len() - 1;
        lemma_types_at_named(edges.drop_last(), targets, ms.drop_last(), types, fallback, i, norm);
        assert(edges[k] == edges.last());
        assert(ms[k] == ms.last());
        let t = edges[k].1 as int;
        if t != i {
            assert(key_of(targets[t].0, norm) != key_of(targets[i].0, norm));
        }
    }
}

/// Topic `i`'s type mismatch finding is among the findings of topics `0..n`
/// for `i < n`.
proof fn lemma_topic_finding_kept(rg: RuntimeGraph, i: int, n: int, f: FindingSpec)
    requires
        0 <= i < n,
        topic_findings(rg, i).contains(f),
    ensures
        topics_findings(rg, n).contains(f),
    decreases n,
{
    if i < n - 1 {
        lemma_topic_finding_kept(rg, i, n - 1, f);
        let j = choose|j: int| 0 <= j < topics_findings(rg, n - 1).len() && (#[trigger] topics_findings(rg, n - 1)[j]) == f;
        assert(topics_findings(rg, n)[j] == f);
    } else {
        let j = choose|j: int| 0 <= j < topic_findings(rg, i).len() && (#[trigger] topic_findings(rg, i)[j]) == f;
        assert(topics_findings(rg, n)[topics_findings(rg, n - 1).len() + j] == f);
    }
}

/// Service `i`'s finding is among the findings of services `0..n` for `i < n`.
proof fn lemma_service_finding_kept(rg: RuntimeGraph, i: int, n: int, f: FindingSpec)
    requires
        0 <= i < n,
        service_findings(rg, i).contains(f),
    ensures
        services_findings(rg, n).contains(f),
    decreases n,
{
    if i < n - 1 {
        lemma_service_finding_kept(rg, i, n - 1, f);
        let j = choose|j: int| 0 <= j < services_findings(rg, n - 1).len() && (#[trigger] services_findings(rg, n - 1)[j]) == f;
        assert(services_findings(rg, n)[j] == f);
    } else {
        let j = choose|j: int| 0 <= j < service_findings(rg, i).len() && (#[trigger] service_findings(rg, i)[j]) == f;
        assert(services_findings(rg, n)[services_findings(rg, n - 1).len() + j] == f);
    }
}

/// In the runtime graph of a set of packages, the types that the publishers
/// and subscribers of topic `i` use are the types of the publisher and
/// subscriber mentions of its name (up to leading slashes). So where the two
/// sets of mentioned types differ (both sides being used), the runtime rules
/// report a type mismatch error for the topic; where they agree, the topic
/// gets no type mismatch finding.
pub proof fn lemma_built_graph_topic_mismatch(pkgs: Seq<Package>, rg: RuntimeGraph, i: int)
    requires
        runtime_graph_spec(pkgs, rg),
        0 <= i < rg.topics@.len(),
    ensures
        ({
            let key = normalize_topic(rg.topics@[i].name@);
            let pubs = types_named(of_kind(runtime_mentions(pkgs), EdgeKind::Publisher), key, true);
            let subs = types_named(of_kind(runtime_mentions(pkgs), EdgeKind::Subscriber), key, true);
            &&& publisher_types(rg, i) == pubs
            &&& subscriber_types(rg, i) == subs
            &&& types_mismatch(pubs, subs) ==> runtime_findings(rg).contains(
                topic_type_mismatch_finding(rg.topics@[i], pubs, subs),
            )
            &&& !types_mismatch(pubs, subs) ==> forall|k: int|
                0 <= k < topic_findings(rg, i).len() ==> (#[trigger] topic_findings(rg, i)[k]).rule_id
                    != "runtime/topic_type_mismatch"@
        }),
{
    let ms = runtime_mentions(pkgs);
    let targets = topic_views(rg.topics@);
    lemma_runtime_graph_wf(pkgs, rg);
    assert forall|a: int, b: int|
        0 <= a < targets.len() && 0 <= b < targets.len() && a != b implies key_of(
            #[trigger] targets[a].0,
            true,
        ) != key_of(#[trigger] targets[b].0, true) by {
        assert(topic_keys(targets)[a] == normalize_topic(targets[a].0));
        assert(topic_keys(targets)[b] == normalize_topic(targets[b].0));
    }
    assert(targets[i].0 == rg.topics@[i].name@);
    let key = normalize_topic(rg.topics@[i].name@);
    let op = of_kind(ms, EdgeKind::Publisher);
    let os = of_kind(ms, EdgeKind::Subscriber);
    let tp = str_views(rg.topic_publisher_types@);
    let ts = str_views(rg.topic_subscriber_types@);
    assert forall|j: int| 0 <= j < op.len() implies tp[j] == (#[trigger] op[j]).ty by {
        assert(mention_types(op)[j] == op[j].ty);
    }
    assert forall|j: int| 0 <= j < os.len() implies ts[j] == (#[trigger] os[j]).ty by {
        assert(mention_types(os)[j] == os[j].ty);
    }
    lemma_types_at_named(rg.topic_publishers@, targets, op, tp, rg.topics@[i].msg_type@, i, true);
    lemma_types_at_named(rg.topic_subscribers@, targets, os, ts, rg.topics@[i].msg_type@, i, true);
    let pubs = publisher_types(rg, i);
    let subs = subscriber_types(rg, i);
    let f = topic_type_mismatch_finding(rg.topics@[i], pubs, subs);
    let tf = topic_findings(rg, i);
    if types_mismatch(pubs, subs) {
        assert(tf[tf.len() - 1] == f);
        lemma_topic_finding_kept(rg, i, rg.topics@.len() as int, f);
        let j = choose|j: int|
            0 <= j < topics_findings(rg, rg.topics@.len() as int).len() && (#[trigger] topics_findings(
                rg,
                rg.topics@.len() as int,
            )[j]) == f;
        assert(runtime_findings(rg)[j] == f);
    } else {
        let a = topic_no_publisher_finding(rg.topics@[i], count_at(rg.topic_subscribers@, i));
        let b = topic_no_subscriber_finding(rg.topics@[i], count_at(rg.topic_publishers@, i));
        reveal_strlit("runtime/topic_type_mismatch");
        reveal_strlit("runtime/topic_no_publisher");
        reveal_strlit("runtime/topic_no_subscriber");
        assert(a.rule_id != "runtime/topic_type_mismatch"@) by {
            assert(a.rule_id[14] != "runtime/topic_type_mismatch"@[14]);
        }
        assert(b.rule_id != "runtime/topic_type_mismatch"@) by {
            assert(b.rule_id[14] != "runtime/topic_type_mismatch"@[14]);
        }
    }
}

/// In the runtime graph of a set of packages, the types that the servers and
/// clients of service `i` use are the types of the server and client mentions
/// of its name. So where the two sets of mentioned types differ (both sides
/// being used), the runtime rules report a type mismatch error for the
/// service; where they agree, the service gets no finding.
pub proof fn lemma_built_graph_service_mismatch(pkgs: Seq<Package>, rg: RuntimeGraph, i: int)
    requires
        runtime_graph_spec(pkgs, rg),
        0 <= i < rg.services@.len(),
    ensures
        ({
            let key = rg.services@[i].name@;
            let servers = types_named(of_kind(runtime_mentions(pkgs), EdgeKind::Server), key, false);
            let clients = types_named(of_kind(runtime_mentions(pkgs), EdgeKind::Client), key, false);
            &&& server_types(rg, i) == servers
            &&& client_types(rg, i) == clients
            &&& types_mismatch(servers, clients) ==> runtime_findings(rg).contains(
                service_type_mismatch_finding(rg.services@[i], servers, clients),
            )
            &&& !types_mismatch(servers, clients) ==> service_findings(rg, i).len() == 0
        }),
{
    let ms = runtime_mentions(pkgs);
    let targets = service_views(rg.services@);
    lemma_runtime_graph_wf(pkgs, rg);
    assert forall|a: int, b: int|
        0 <= a < targets.len() && 0 <= b < targets.len() && a != b implies key_of(
            #[trigger] targets[a].0,
            false,
        ) != key_of(#[trigger] targets[b].0, false) by {
        assert(service_keys(targets)[a] == targets[a].0);
        assert(service_keys(targets)[b] == targets[b].0);
    }
    assert(targets[i].0 == rg.services@[i].name@);
    let ov = of_kind(ms, EdgeKind::Server);
    let oc = of_kind(ms, EdgeKind::Client);
    let tv = str_views(rg.service_server_types@);
    let tc = str_views(rg.service_client_types@);
    assert forall|j: int| 0 <= j < ov.len() implies tv[j] == (#[trigger] ov[j]).ty by {
        assert(mention_types(ov)[j] == ov[j].ty);
    }
    assert forall|j: int| 0 <= j < oc.len() implies tc[j] == (#[trigger] oc[j]).ty by {
        assert(mention_types(oc)[j] == oc[j].ty);
    }
    lemma_types_at_named(rg.service_servers@, targets, ov, tv, rg.services@[i].srv_type@, i, false);
    lemma_types_at_named(rg.service_clients@, targets, oc, tc, rg.services@[i].srv_type@, i, false);
    let sv = server_types(rg, i);
    let cl = client_types(rg, i);
    if types_mismatch(sv, cl) {
        let f = service_type_mismatch_finding(rg.services@[i], sv, cl);
        assert(service_findings(rg, i)[0] == f);
        lemma_service_finding_kept(rg, i, rg.services@.len() as int, f);
        let t = topics_findings(rg, rg.topics@.len() as int);
        let j = choose|j: int|
            0 <= j < services_findings(rg, rg.services@.len() as int).len() && (#[trigger] services_findings(
                rg,
                rg.services@.len() as int,
            )[j]) == f;
        assert(runtime_findings(rg)[t.len() + j] == f);
    }
}

} // verus!
