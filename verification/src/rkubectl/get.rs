//! The `get` command: the objects of one kind as a table.

use crate::objects::duplicate::views_of;
use crate::objects::ingress::{IngressPath, IngressRule};
use crate::objects::pod::{ContainerStatus, PodPhase};
use crate::objects::replica_set::ReplicaSetStatus;
use crate::objects::service::ServicePort;
use crate::objects::{storage_key, storage_key_of, KubeObject, KubeResource, ResourceKind};
use crate::text::{decimal, decimal_of, join, joined, row, row_of};
use crate::time::Timestamp;
use vstd::prelude::*;
use vstd::string::StringExecFns;

verus! {

/// The longest span, in seconds, that an age is worked out for; longer
/// spans count as this long.
pub const MAX_AGE_SECONDS: i64 = 9_223_372_036_854_775;

/// What `get` was asked for.
#[derive(Debug, PartialEq, Eq)]
pub struct Arg {
    /// Kind of resource.
    pub kind: ResourceKind,
    /// Name of resource; all of the kind where there is none.
    pub name: Option<String>,
}

/// Why a table broke off.
#[derive(Clone, Copy, Debug, PartialEq, Eq, Structural)]
pub enum GetError {
    /// A pod carries no status.
    MissingStatus,
    /// A service has no cluster IP.
    MissingClusterIp,
    /// An ingress rule names no host.
    MissingHost,
}

impl GetError {
    pub fn message(&self) -> (text: String)
        ensures
            text@ == (match self {
                GetError::MissingStatus => "Pod should always have a status"@,
                GetError::MissingClusterIp => "Service should always have a cluster IP"@,
                GetError::MissingHost => "Ingress rule should always have a host"@,
            }),
    {
        match self {
            GetError::MissingStatus => String::from_str("Pod should always have a status"),
            GetError::MissingClusterIp => String::from_str(
                "Service should always have a cluster IP",
            ),
            GetError::MissingHost => String::from_str("Ingress rule should always have a host"),
        }
    }
}

/// The lines of a table, and the error at which it broke off, if it did.
#[derive(Debug, PartialEq, Eq)]
pub struct Table {
    pub lines: Vec<String>,
    pub error: Option<GetError>,
}

/// The text that the rough English rendering of `chrono_humanize` gives for
/// a span of `seconds` whole seconds, in the present tense.
pub uninterp spec fn rough_age_of(seconds: int) -> Seq<char>;

/// A span of `seconds` seconds in rough English, as in "an hour" or "3 days".
///
/// Calls `chrono_humanize::HumanTime::to_text_en` with `Accuracy::Rough` and
/// `Tense::Present` on a `chrono::Duration` of that many seconds. The text
/// depends on the number of seconds alone, and the contract gives it a name.
/// The bounds are those within which `chrono::Duration::seconds` does not
/// panic.
#[verifier::external_body]
fn rough_age(seconds: i64) -> (text: String)
    requires
        -MAX_AGE_SECONDS <= seconds <= MAX_AGE_SECONDS,
    ensures
        text@ == rough_age_of(seconds as int),
{
    chrono_humanize::HumanTime::from(chrono::Duration::seconds(seconds)).to_text_en(
        chrono_humanize::Accuracy::Rough,
        chrono_humanize::Tense::Present,
    )
}

/// The whole seconds from `from` to `to`, rounded towards zero and held
/// within [`MAX_AGE_SECONDS`] either way.
pub open spec fn span_seconds(from: Timestamp, to: Timestamp) -> int {
    let nanos = (to.secs - from.secs) * 1_000_000_000 + (to.nanos - from.nanos);
    let whole = if nanos >= 0 {
        nanos / 1_000_000_000
    } else {
        -((-nanos) / 1_000_000_000)
    };
    if whole > MAX_AGE_SECONDS {
        MAX_AGE_SECONDS as int
    } else if whole < -MAX_AGE_SECONDS {
        -MAX_AGE_SECONDS
    } else {
        whole
    }
}

/// The whole seconds from `from` to `to`.
pub fn seconds_between(from: &Timestamp, to: &Timestamp) -> (seconds: i64)
    ensures
        seconds == span_seconds(*from, *to),
{
    let nanos: i128 = (to.secs as i128 - from.secs as i128) * 1_000_000_000 + (to.nanos as i128
        - from.nanos as i128);
    let limit: u128 = 9_223_372_036_854_775;
    if nanos >= 0 {
        let whole: u128 = (nanos as u128) / 1_000_000_000;
        if whole > limit {
            MAX_AGE_SECONDS
        } else {
            whole as i64
        }
    } else {
        let whole: u128 = ((-nanos) as u128) / 1_000_000_000;
        if whole > limit {
            -MAX_AGE_SECONDS
        } else {
            -(whole as i64)
        }
    }
}

/// How long ago `start` was at `now`, in rough English.
pub fn age(start: &Timestamp, now: &Timestamp) -> (text: String)
    ensures
        text@ == rough_age_of(span_seconds(*start, *now)),
{
    rough_age(seconds_between(start, now))
}

/// The path that `get` asks the API server for: the kind's collection, or
/// the one object of that name.
pub open spec fn path_of(kind: ResourceKind, name: Option<String>) -> Seq<char> {
    match name {
        Some(n) => storage_key_of(kind, n@),
        None => "/api/v1/"@ + kind.plural_spec(),
    }
}

/// The name of a phase as it is shown.
pub open spec fn phase_text(phase: PodPhase) -> Seq<char> {
    match phase {
        PodPhase::Pending => "Pending"@,
        PodPhase::Running => "Running"@,
        PodPhase::Succeeded => "Succeeded"@,
        PodPhase::Failed => "Failed"@,
    }
}

/// The restarts of all containers together.
pub open spec fn restarts_of(statuses: Seq<ContainerStatus>) -> nat
    decreases statuses.len(),
{
    if statuses.len() == 0 {
        0
    } else {
        restarts_of(statuses.drop_last()) + statuses.last().restart_count as nat
    }
}

/// A service port as it is shown: the port alone where it forwards to the
/// same port, and `port:target` where it does not.
pub open spec fn port_text(port: ServicePort) -> Seq<char> {
    if port.port == port.target_port {
        decimal_of(port.port as nat)
    } else {
        decimal_of(port.port as nat) + seq![':'] + decimal_of(port.target_port as nat)
    }
}

/// An ingress path as it is shown: `path:service:port`.
pub open spec fn path_text(path: IngressPath) -> Seq<char> {
    path.path@ + seq![':'] + path.service.name@ + seq![':'] + decimal_of(path.service.port as nat)
}

/// The column heads for `kind`, where the kind has a table.
pub open spec fn header_of(kind: ResourceKind) -> Option<Seq<char>> {
    match kind {
        ResourceKind::Pod => Some(
            row_of(seq!["NAME"@, "STATUS"@, "RESTARTS"@, "AGE"@], seq![20usize, 10, 8, 10]),
        ),
        ResourceKind::ReplicaSet => Some(
            row_of(seq!["NAME"@, "DESIRED"@, "CURRENT"@, "READY"@], seq![20usize, 8, 8, 8]),
        ),
        ResourceKind::Service => Some(
            row_of(seq!["NAME"@, "CLUSTER-IP"@, "PORTS"@, "ENDPOINTS"@], seq![20usize, 16, 20]),
        ),
        ResourceKind::Ingress => Some(
            row_of(seq!["NAME"@, "HOST"@, "PATH:SERVICE:PORT"@], seq![20usize, 30]),
        ),
        _ => None,
    }
}

/// The lines for the rules of the ingress called `name`, one for each rule,
/// up to the first rule without a host.
pub open spec fn ingress_rows_of(name: Seq<char>, rules: Seq<IngressRule>) -> (Seq<Seq<char>>, Option<
    GetError,
>)
    decreases rules.len(),
{
    if rules.len() == 0 {
        (Seq::empty(), None)
    } else {
        let (lines, error) = ingress_rows_of(name, rules.drop_last());
        if error is Some {
            (lines, error)
        } else {
            match rules.last().host {
                None => (lines, Some(GetError::MissingHost)),
                Some(host) => (
                    lines.push(
                        row_of(
                            seq![
                                name,
                                host@,
                                joined(
                                    Seq::new(
                                        rules.last().paths@.len(),
                                        |i: int| path_text(rules.last().paths@[i]),
                                    ),
                                    seq![','],
                                ),
                            ],
                            seq![20usize, 30],
                        ),
                    ),
                    None,
                ),
            }
        }
    }
}

/// The lines that `object` gives in the table for `kind`, and the error
/// that it breaks the table off with. An object of another kind gives
/// neither.
pub open spec fn rows_of(kind: ResourceKind, object: KubeObject, now: Timestamp) -> (Seq<Seq<char>>, Option<
    GetError,
>) {
    let name = object.metadata.name@;
    match (kind, object.resource) {
        (ResourceKind::Pod, KubeResource::Pod(pod)) => match pod.status {
            None => (Seq::empty(), Some(GetError::MissingStatus)),
            Some(status) => (
                seq![
                    row_of(
                        seq![
                            name,
                            phase_text(status.phase),
                            decimal_of(restarts_of(status.container_statuses@)),
                            rough_age_of(span_seconds(status.start_time, now)),
                        ],
                        seq![20usize, 10, 8, 10],
                    ),
                ],
                None,
            ),
        },
        (ResourceKind::ReplicaSet, KubeResource::ReplicaSet(rs)) => {
            let status = match rs.status {
                Some(status) => status,
                None => ReplicaSetStatus { replicas: 0, ready_replicas: 0 },
            };
            (
                seq![
                    row_of(
                        seq![
                            name,
                            decimal_of(rs.spec.replicas as nat),
                            decimal_of(status.replicas as nat),
                            decimal_of(status.ready_replicas as nat),
                        ],
                        seq![20usize, 8, 8, 8],
                    ),
                ],
                None,
            )
        },
        (ResourceKind::Service, KubeResource::Service(service)) => match service.spec.cluster_ip {
            None => (Seq::empty(), Some(GetError::MissingClusterIp)),
            Some(cluster_ip) => (
                seq![
                    row_of(
                        seq![
                            name,
                            cluster_ip@,
                            joined(
                                Seq::new(
                                    service.spec.ports@.len(),
                                    |i: int| port_text(service.spec.ports@[i]),
                                ),
                                seq![','],
                            ),
                            joined(views_of(service.spec.endpoints@), seq![',']),
                        ],
                        seq![20usize, 16, 20],
                    ),
                ],
                None,
            ),
        },
        (ResourceKind::Ingress, KubeResource::Ingress(ingress)) => ingress_rows_of(
            name,
            ingress.spec.rules@,
        ),
        _ => (Seq::empty(), None),
    }
}

/// The lines below the header for `objects`, up to the first error.
pub open spec fn body_of(kind: ResourceKind, objects: Seq<KubeObject>, now: Timestamp) -> (Seq<Seq<char>>, Option<
    GetError,
>)
    decreases objects.len(),
{
    if objects.len() == 0 {
        (Seq::empty(), None)
    } else {
        let (lines, error) = body_of(kind, objects.drop_last(), now);
        if error is Some {
            (lines, error)
        } else {
            let (rows, row_error) = rows_of(kind, objects.last(), now);
            (lines + rows, row_error)
        }
    }
}

/// The table for `kind`: the header, then the lines for `objects` up to the
/// first error. A kind without a table gives no lines at all.
pub open spec fn table_of(kind: ResourceKind, objects: Seq<KubeObject>, now: Timestamp) -> (Seq<Seq<char>>, Option<
    GetError,
>) {
    match header_of(kind) {
        None => (Seq::empty(), None),
        Some(header) => {
            let (lines, error) = body_of(kind, objects, now);
            (seq![header] + lines, error)
        },
    }
}

fn phase_name(phase: PodPhase) -> (text: &'static str)
    ensures
        text@ == phase_text(phase),
{
    match phase {
        PodPhase::Pending => "Pending",
        PodPhase::Running => "Running",
        PodPhase::Succeeded => "Succeeded",
        PodPhase::Failed => "Failed",
    }
}

/// The restarts of all containers together.
pub fn restarts(statuses: &Vec<ContainerStatus>) -> (total: u128)
    ensures
        total == restarts_of(statuses@),
{
    let mut total: u128 = 0;
    let mut i: usize = 0;
    while i < statuses.len()
        invariant
            0 <= i <= statuses@.len(),
            total == restarts_of(statuses@.take(i as int)),
            total <= i * 0xffff_ffff,
        decreases statuses@.len() - i,
    {
        proof {
            assert(statuses@.take(i + 1).drop_last() =~= statuses@.take(i as int));
        }
        total = total + statuses[i].restart_count as u128;
        i += 1;
    }
    proof {
        assert(statuses@.take(i as int) =~= statuses@);
    }
    total
}

fn colon() -> (text: &'static str)
    ensures
        text@ == seq![':'],
{
    proof {
        reveal_strlit(":");
    }
    let text = ":";
    assert(text@ =~= seq![':']);
    text
}

fn comma() -> (text: &'static str)
    ensures
        text@ == seq![','],
{
    proof {
        reveal_strlit(",");
    }
    let text = ",";
    assert(text@ =~= seq![',']);
    text
}

fn ports_text(ports: &Vec<ServicePort>) -> (text: String)
    ensures
        text@ == joined(Seq::new(ports@.len(), |i: int| port_text(ports@[i])), seq![',']),
{
    let mut items: Vec<String> = Vec::new();
    let mut i: usize = 0;
    while i < ports.len()
        invariant
            0 <= i <= ports@.len(),
            items@.len() == i,
            forall|j: int| 0 <= j < i ==> (#[trigger] items@[j])@ == port_text(ports@[j]),
        decreases ports@.len() - i,
    {
        let port = ports[i];
        let item = if port.port == port.target_port {
            decimal(port.port as u128)
        } else {
            decimal(port.port as u128).concat(colon()).concat(
                decimal(port.target_port as u128).as_str(),
            )
        };
        items.push(item);
        i += 1;
    }
    proof {
        assert(views_of(items@) =~= Seq::new(ports@.len(), |i: int| port_text(ports@[i])));
    }
    join(&items, comma())
}

fn paths_text(paths: &Vec<IngressPath>) -> (text: String)
    ensures
        text@ == joined(Seq::new(paths@.len(), |i: int| path_text(paths@[i])), seq![',']),
{
    let mut items: Vec<String> = Vec::new();
    let mut i: usize = 0;
    while i < paths.len()
        invariant
            0 <= i <= paths@.len(),
            items@.len() == i,
            forall|j: int| 0 <= j < i ==> (#[trigger] items@[j])@ == path_text(paths@[j]),
        decreases paths@.len() - i,
    {
        let path = &paths[i];
        let item = path.path.clone().concat(colon()).concat(path.service.name.as_str()).concat(
            colon(),
        ).concat(decimal(path.service.port as u128).as_str());
        items.push(item);
        i += 1;
    }
    proof {
        assert(views_of(items@) =~= Seq::new(paths@.len(), |i: int| path_text(paths@[i])));
    }
    join(&items, comma())
}

fn cells4(a: String, b: String, c: String, d: String) -> (cells: Vec<String>)
    ensures
        views_of(cells@) == seq![a@, b@, c@, d@],
{
    let mut cells: Vec<String> = Vec::new();
    cells.push(a);
    cells.push(b);
    cells.push(c);
    cells.push(d);
    assert(views_of(cells@) =~= seq![a@, b@, c@, d@]);
    cells
}

fn cells3(a: String, b: String, c: String) -> (cells: Vec<String>)
    ensures
        views_of(cells@) == seq![a@, b@, c@],
{
    let mut cells: Vec<String> = Vec::new();
    cells.push(a);
    cells.push(b);
    cells.push(c);
    assert(views_of(cells@) =~= seq![a@, b@, c@]);
    cells
}

fn widths4(a: usize, b: usize, c: usize, d: usize) -> (widths: Vec<usize>)
    ensures
        widths@ == seq![a, b, c, d],
{
    let mut widths: Vec<usize> = Vec::new();
    widths.push(a);
    widths.push(b);
    widths.push(c);
    widths.push(d);
    assert(widths@ =~= seq![a, b, c, d]);
    widths
}

fn widths3(a: usize, b: usize, c: usize) -> (widths: Vec<usize>)
    ensures
        widths@ == seq![a, b, c],
{
    let mut widths: Vec<usize> = Vec::new();
    widths.push(a);
    widths.push(b);
    widths.push(c);
    assert(widths@ =~= seq![a, b, c]);
    widths
}

fn widths2(a: usize, b: usize) -> (widths: Vec<usize>)
    ensures
        widths@ == seq![a, b],
{
    let mut widths: Vec<usize> = Vec::new();
    widths.push(a);
    widths.push(b);
    assert(widths@ =~= seq![a, b]);
    widths
}

/// The column heads for `kind`, where the kind has a table.
pub fn header(kind: ResourceKind) -> (line: Option<String>)
    ensures
        match header_of(kind) {
            Some(text) => line matches Some(l) && l@ == text,
            None => line is None,
        },
{
    match kind {
        ResourceKind::Pod => Some(
            row(
                &cells4(
                    String::from_str("NAME"),
                    String::from_str("STATUS"),
                    String::from_str("RESTARTS"),
                    String::from_str("AGE"),
                ),
                &widths4(20, 10, 8, 10),
            ),
        ),
        ResourceKind::ReplicaSet => Some(
            row(
                &cells4(
                    String::from_str("NAME"),
                    String::from_str("DESIRED"),
                    String::from_str("CURRENT"),
                    String::from_str("READY"),
                ),
                &widths4(20, 8, 8, 8),
            ),
        ),
        ResourceKind::Service => Some(
            row(
                &cells4(
                    String::from_str("NAME"),
                    String::from_str("CLUSTER-IP"),
                    String::from_str("PORTS"),
                    String::from_str("ENDPOINTS"),
                ),
                &widths3(20, 16, 20),
            ),
        ),
        ResourceKind::Ingress => Some(
            row(
                &cells3(
                    String::from_str("NAME"),
                    String::from_str("HOST"),
                    String::from_str("PATH:SERVICE:PORT"),
                ),
                &widths2(20, 30),
            ),
        ),
        _ => None,
    }
}

fn ingress_rows(name: &String, rules: &Vec<IngressRule>) -> (rows: (Vec<String>, Option<GetError>))
    ensures
        (views_of(rows.0@), rows.1) == ingress_rows_of(name@, rules@),
{
    let mut lines: Vec<String> = Vec::new();
    let mut i: usize = 0;
    proof {
        assert(views_of(lines@) =~= Seq::<Seq<char>>::empty());
    }
    while i < rules.len()
        invariant
            0 <= i <= rules@.len(),
            (views_of(lines@), None::<GetError>) == ingress_rows_of(name@, rules@.take(i as int)),
        decreases rules@.len() - i,
    {
        proof {
            assert(rules@.take(i + 1).drop_last() =~= rules@.take(i as int));
            assert(rules@.take(i + 1).last() == rules@[i as int]);
        }
        let rule = &rules[i];
        let ghost before = views_of(lines@);
        match &rule.host {
            None => {
                proof {
                    lemma_ingress_rows_stop(name@, rules@, i as int + 1);
                }
                return (lines, Some(GetError::MissingHost));
            },
            Some(host) => {
                let line = row(
                    &cells3(name.clone(), host.clone(), paths_text(&rule.paths)),
                    &widths2(20, 30),
                );
                lines.push(line);
                proof {
                    assert(views_of(lines@) =~= before.push(line@));
                }
            },
        }
        i += 1;
    }
    proof {
        assert(rules@.take(i as int) =~= rules@);
    }
    (lines, None)
}

/// Once a rule has broken the table off, the rules after it add nothing.
proof fn lemma_ingress_rows_stop(name: Seq<char>, rules: Seq<IngressRule>, upto: int)
    requires
        0 <= upto <= rules.len(),
        ingress_rows_of(name, rules.take(upto)).1 is Some,
    ensures
        ingress_rows_of(name, rules) == ingress_rows_of(name, rules.take(upto)),
    decreases rules.len() - upto,
{
    if upto == rules.len() {
        assert(rules.take(upto) =~= rules);
    } else {
        assert(rules.take(upto + 1).drop_last() =~= rules.take(upto));
        lemma_ingress_rows_stop(name, rules, upto + 1);
    }
}

/// The lines that `object` gives in the table for `kind`.
pub fn rows(kind: ResourceKind, object: &KubeObject, now: &Timestamp) -> (rows: (
    Vec<String>,
    Option<GetError>,
))
    ensures
        (views_of(rows.0@), rows.1) == rows_of(kind, *object, *now),
{
    let mut lines: Vec<String> = Vec::new();
    proof {
        assert(views_of(lines@) =~= Seq::<Seq<char>>::empty());
    }
    match (kind, &object.resource) {
        (ResourceKind::Pod, KubeResource::Pod(pod)) => match &pod.status {
            None => (lines, Some(GetError::MissingStatus)),
            Some(status) => {
                let line = row(
                    &cells4(
                        object.metadata.name.clone(),
                        String::from_str(phase_name(status.phase)),
                        decimal(restarts(&status.container_statuses)),
                        age(&status.start_time, now),
                    ),
                    &widths4(20, 10, 8, 10),
                );
                lines.push(line);
                proof {
                    assert(views_of(lines@) =~= seq![line@]);
                }
                (lines, None)
            },
        },
        (ResourceKind::ReplicaSet, KubeResource::ReplicaSet(rs)) => {
            let status = match rs.status {
                Some(status) => status,
                None => ReplicaSetStatus { replicas: 0, ready_replicas: 0 },
            };
            let line = row(
                &cells4(
                    object.metadata.name.clone(),
                    decimal(rs.spec.replicas as u128),
                    decimal(status.replicas as u128),
                    decimal(status.ready_replicas as u128),
                ),
                &widths4(20, 8, 8, 8),
            );
            lines.push(line);
            proof {
                assert(views_of(lines@) =~= seq![line@]);
            }
            (lines, None)
        },
        (ResourceKind::Service, KubeResource::Service(service)) => {
            match &service.spec.cluster_ip {
                None => (lines, Some(GetError::MissingClusterIp)),
                Some(cluster_ip) => {
                    let line = row(
                        &cells4(
                            object.metadata.name.clone(),
                            cluster_ip.clone(),
                            ports_text(&service.spec.ports),
                            join(&service.spec.endpoints, comma()),
                        ),
                        &widths3(20, 16, 20),
                    );
                    lines.push(line);
                    proof {
                        assert(views_of(lines@) =~= seq![line@]);
                    }
                    (lines, None)
                },
            }
        },
        (ResourceKind::Ingress, KubeResource::Ingress(ingress)) => ingress_rows(
            &object.metadata.name,
            &ingress.spec.rules,
        ),
        _ => (lines, None),
    }
}

/// Once an object has broken the table off, the objects after it add nothing.
proof fn lemma_body_stop(kind: ResourceKind, objects: Seq<KubeObject>, now: Timestamp, upto: int)
    requires
        0 <= upto <= objects.len(),
        body_of(kind, objects.take(upto), now).1 is Some,
    ensures
        body_of(kind, objects, now) == body_of(kind, objects.take(upto), now),
    decreases objects.len() - upto,
{
    if upto == objects.len() {
        assert(objects.take(upto) =~= objects);
    } else {
        assert(objects.take(upto + 1).drop_last() =~= objects.take(upto));
        lemma_body_stop(kind, objects, now, upto + 1);
    }
}

impl Arg {
    /// The path to ask the API server for.
    pub fn path(&self) -> (path: String)
        ensures
            path@ == path_of(self.kind, self.name),
    {
        match &self.name {
            Some(name) => storage_key(self.kind, name.as_str()),
            None => String::from_str("/api/v1/").concat(self.kind.plural()),
        }
    }

    /// The table to show for the `objects` that the API server sent, with
    /// ages as of `now`: the column heads of the kind asked for, and a line
    /// for each object of that kind, up to the first that cannot be shown.
    pub fn handle(&self, objects: &Vec<KubeObject>, now: &Timestamp) -> (table: Table)
        ensures
            (views_of(table.lines@), table.error) == table_of(self.kind, objects@, *now),
    {
        let mut lines: Vec<String> = Vec::new();
        proof {
            assert(views_of(lines@) =~= Seq::<Seq<char>>::empty());
        }
        let head = match header(self.kind) {
            Some(head) => head,
            None => {
                return Table { lines, error: None };
            },
        };
        lines.push(head);
        let ghost top = seq![head@];
        proof {
            assert(views_of(lines@) =~= top + Seq::<Seq<char>>::empty());
        }
        let mut i: usize = 0;
        while i < objects.len()
            invariant
                0 <= i <= objects@.len(),
                header_of(self.kind) == Some(head@),
                top == seq![head@],
                body_of(self.kind, objects@.take(i as int), *now).1 is None,
                views_of(lines@) == top + body_of(self.kind, objects@.take(i as int), *now).0,
            decreases objects@.len() - i,
        {
            proof {
                assert(objects@.take(i + 1).drop_last() =~= objects@.take(i as int));
                assert(objects@.take(i + 1).last() == objects@[i as int]);
            }
            let ghost before = views_of(lines@);
            let (mut more, error) = rows(self.kind, &objects[i], now);
            let ghost added = views_of(more@);
            lines.append(&mut more);
            proof {
                assert(views_of(lines@) =~= before + added);
                assert(before + added =~= top + (body_of(
                    self.kind,
                    objects@.take(i as int),
                    *now,
                ).0 + added));
            }
            if error.is_some() {
                proof {
                    lemma_body_stop(self.kind, objects@, *now, i as int + 1);
                }
                return Table { lines, error };
            }
            i += 1;
        }
        proof {
            assert(objects@.take(i as int) =~= objects@);
        }
        Table { lines, error: None }
    }
}

} // verus!
