//! The local answer source and the processor's query pipeline: classify
//! each question of a decoded query, answer from host identity or
//! container labels, defer out-of-domain questions to an upstream
//! resolver, and otherwise hand the query to the multicast mesh.

use vstd::prelude::*;
use crate::endpoint::Endpoint;
use crate::message::{DnsMessage, answer_wire, build_a_answer};
use crate::names::{
    bytes_eq, contains_bytes, contains_sub, ends_with, join_fqdn, lower_bytes, lower_seq,
    spec_fqdn, suffix_of,
};

verus! {

/// TTL, in seconds, of every emitted A record.
pub const ANSWER_TTL_SECS: u32 = 1;

/// One container label: a key/value pair.
pub struct ContainerLabel {
    pub key: Vec<u8>,
    pub value: Vec<u8>,
}

/// What the engine reads of one locally running container: its labels and
/// the IPv4 address strings of its networks, in enumeration order.
pub struct ContainerInfo {
    pub labels: Vec<ContainerLabel>,
    pub network_ips: Vec<Option<Vec<u8>>>,
}

/// The resolver's environment for one query: host identity, the
/// authoritative IPv4 of the default interface, the private domain
/// suffix, and the locally running containers.
pub struct HostEnv {
    pub host_name: Vec<u8>,
    pub ip0: u8,
    pub ip1: u8,
    pub ip2: u8,
    pub ip3: u8,
    pub domain: Vec<u8>,
    pub containers: Vec<ContainerInfo>,
}

impl HostEnv {
    /// The host's fully-qualified name fits in memory.
    pub open spec fn wf(self) -> bool {
        self.host_name@.len() + self.domain@.len() + 1 <= usize::MAX
    }
}

/// The processor's three-way outcome for one query.
pub enum Ret {
    Resp(Vec<u8>),
    SendToMesh(Vec<u8>, Endpoint),
    NoOp,
}

/// The mathematical view of a `Ret`.
pub enum RetView {
    Resp(Seq<u8>),
    SendToMesh(Seq<u8>, Endpoint),
    NoOp,
}

/// View of a `Ret`.
pub open spec fn ret_view(r: Ret) -> RetView {
    match r {
        Ret::Resp(b) => RetView::Resp(b@),
        Ret::SendToMesh(b, e) => RetView::SendToMesh(b@, e),
        Ret::NoOp => RetView::NoOp,
    }
}

/// Either a final outcome, or a request to consult the upstream resolver
/// for the question at the given index.
pub enum StepResult {
    Done(Ret),
    NeedUpstream(usize),
}

/// The mathematical view of a `StepResult`.
pub enum StepView {
    Done(RetView),
    NeedUpstream(int),
}

/// View of a `StepResult`.
pub open spec fn step_result_view(r: StepResult) -> StepView {
    match r {
        StepResult::Done(t) => StepView::Done(ret_view(t)),
        StepResult::NeedUpstream(i) => StepView::NeedUpstream(i as int),
    }
}

/// The bytes of `"caddy"`.
pub open spec fn spec_caddy() -> Seq<u8> {
    seq![99u8, 97u8, 100u8, 100u8, 121u8]
}

/// The bytes of `"."`.
pub open spec fn spec_dot() -> Seq<u8> {
    seq![46u8]
}

/// The bytes of `"DNS_SERVER"`.
pub open spec fn spec_dns_server_key() -> Seq<u8> {
    seq![68u8, 78u8, 83u8, 95u8, 83u8, 69u8, 82u8, 86u8, 69u8, 82u8]
}

/// The queried name lies in the private domain: the folded suffix ends
/// the folded name.
pub open spec fn spec_in_domain(domain: Seq<u8>, q: Seq<u8>) -> bool {
    suffix_of(lower_seq(domain), lower_seq(q))
}

/// The queried name is the host's own fully-qualified name, up to ASCII
/// case.
pub open spec fn spec_self_match(host: Seq<u8>, domain: Seq<u8>, q: Seq<u8>) -> bool {
    lower_seq(spec_fqdn(host, domain)) == lower_seq(q)
}

/// A label routes the queried name: its key mentions `caddy`, holds no
/// dot, and its value equals the name, case-sensitively.
pub open spec fn spec_label_matches(l: ContainerLabel, q: Seq<u8>) -> bool {
    contains_sub(l.key@, spec_caddy()) && !contains_sub(l.key@, spec_dot()) && l.value@ == q
}

/// Some label of the container routes the queried name.
pub open spec fn spec_container_matches(c: ContainerInfo, q: Seq<u8>) -> bool {
    exists|i: int| 0 <= i < c.labels@.len() && spec_label_matches(c.labels@[i], q)
}

/// Some locally running container routes the queried name.
pub open spec fn spec_any_container_matches(cs: Seq<ContainerInfo>, q: Seq<u8>) -> bool {
    exists|i: int| 0 <= i < cs.len() && spec_container_matches(cs[i], q)
}

/// The container advertises itself as an upstream resolver.
pub open spec fn spec_is_dns_server(c: ContainerInfo) -> bool {
    exists|i: int| 0 <= i < c.labels@.len() && c.labels@[i].key@ == spec_dns_server_key()
}

/// Some container advertises itself as an upstream resolver.
pub open spec fn spec_has_upstream(cs: Seq<ContainerInfo>) -> bool {
    exists|i: int| 0 <= i < cs.len() && spec_is_dns_server(cs[i])
}

/// The outcome of answering question `q` positively: the built answer, or
/// a silent drop where the wire builder refuses the input.
pub open spec fn spec_answer_ret(env: HostEnv, msg: DnsMessage, q: Seq<u8>) -> RetView {
    match answer_wire(msg.bytes@, q, ANSWER_TTL_SECS, env.ip0, env.ip1, env.ip2, env.ip3) {
        Some(b) => RetView::Resp(b),
        None => RetView::NoOp,
    }
}

/// The outcome when every question is exhausted: hand the query to the
/// mesh unless it already came from the mesh.
pub open spec fn spec_tail_ret(msg: DnsMessage, src: Endpoint) -> RetView {
    if src.spec_is_multicast() {
        RetView::NoOp
    } else {
        RetView::SendToMesh(msg.bytes@, src)
    }
}

/// The server-variant processing of questions from index `i` on: first
/// match wins; an in-domain miss from a unicast source goes to the mesh at
/// once; an out-of-domain question defers to the upstream resolver when
/// one is advertised.
pub open spec fn spec_step(env: HostEnv, msg: DnsMessage, src: Endpoint, i: int) -> StepView
    decreases msg.questions@.len() - i,
{
    if i < 0 || i >= msg.questions@.len() {
        StepView::Done(spec_tail_ret(msg, src))
    } else {
        let q = msg.questions@[i]@;
        if spec_in_domain(env.domain@, q) {
            if spec_self_match(env.host_name@, env.domain@, q) {
                StepView::Done(spec_answer_ret(env, msg, q))
            } else if spec_any_container_matches(env.containers@, q) {
                StepView::Done(spec_answer_ret(env, msg, q))
            } else if !src.spec_is_multicast() {
                StepView::Done(RetView::SendToMesh(msg.bytes@, src))
            } else {
                spec_step(env, msg, src, i + 1)
            }
        } else {
            if spec_has_upstream(env.containers@) {
                StepView::NeedUpstream(i)
            } else {
                spec_step(env, msg, src, i + 1)
            }
        }
    }
}

/// The endpoint-variant processing of questions from index `i` on: answer
/// self and container matches, never defer upstream, never touch the mesh.
pub open spec fn spec_endpoint_step(env: HostEnv, msg: DnsMessage, i: int) -> RetView
    decreases msg.questions@.len() - i,
{
    if i < 0 || i >= msg.questions@.len() {
        RetView::NoOp
    } else {
        let q = msg.questions@[i]@;
        if spec_in_domain(env.domain@, q) && (spec_self_match(env.host_name@, env.domain@, q)
            || spec_any_container_matches(env.containers@, q)) {
            spec_answer_ret(env, msg, q)
        } else {
            spec_endpoint_step(env, msg, i + 1)
        }
    }
}

/// Copy a byte string.
pub fn copy_bytes(v: &Vec<u8>) -> (r: Vec<u8>)
    ensures
        r@ == v@,
{
    let mut r: Vec<u8> = Vec::new();
    let mut i: usize = 0;
    while i < v.len()
        invariant
            i <= v.len(),
            r@ == v@.subrange(0, i as int),
        decreases v.len() - i,
    {
        r.push(v[i]);
        proof {
            assert(r@ =~= v@.subrange(0, i + 1));
        }
        i += 1;
    }
    proof {
        assert(r@ =~= v@);
    }
    r
}

/// The bytes of `"caddy"`.
fn caddy_pattern() -> (r: Vec<u8>)
    ensures
        r@ == spec_caddy(),
{
    let mut v: Vec<u8> = Vec::new();
    v.push(99);
    v.push(97);
    v.push(100);
    v.push(100);
    v.push(121);
    proof {
        assert(v@ =~= spec_caddy());
    }
    v
}

/// The bytes of `"."`.
fn dot_pattern() -> (r: Vec<u8>)
    ensures
        r@ == spec_dot(),
{
    let mut v: Vec<u8> = Vec::new();
    v.push(46);
    proof {
        assert(v@ =~= spec_dot());
    }
    v
}

/// The bytes of `"DNS_SERVER"`.
fn dns_server_pattern() -> (r: Vec<u8>)
    ensures
        r@ == spec_dns_server_key(),
{
    let mut v: Vec<u8> = Vec::new();
    v.push(68);
    v.push(78);
    v.push(83);
    v.push(95);
    v.push(83);
    v.push(69);
    v.push(82);
    v.push(86);
    v.push(69);
    v.push(82);
    proof {
        assert(v@ =~= spec_dns_server_key());
    }
    v
}

/// The queried name lies in the private domain (executable).
pub fn in_domain(domain: &Vec<u8>, q: &Vec<u8>) -> (r: bool)
    ensures
        r == spec_in_domain(domain@, q@),
{
    let ql = lower_bytes(q);
    let dl = lower_bytes(domain);
    ends_with(&ql, &dl)
}

/// The queried name is the host's fully-qualified name (executable).
pub fn self_match(host: &Vec<u8>, domain: &Vec<u8>, q: &Vec<u8>) -> (r: bool)
    requires
        host@.len() + domain@.len() + 1 <= usize::MAX,
    ensures
        r == spec_self_match(host@, domain@, q@),
{
    let fqdn = join_fqdn(host, domain);
    let fl = lower_bytes(&fqdn);
    let ql = lower_bytes(q);
    bytes_eq(&fl, &ql)
}

/// Some label of the container routes the queried name (executable).
pub fn container_matches(c: &ContainerInfo, q: &Vec<u8>) -> (r: bool)
    ensures
        r == spec_container_matches(*c, q@),
{
    let caddy = caddy_pattern();
    let dot = dot_pattern();
    let mut i: usize = 0;
    while i < c.labels.len()
        invariant
            i <= c.labels@.len(),
            caddy@ == spec_caddy(),
            dot@ == spec_dot(),
            forall|j: int| 0 <= j < i ==> !spec_label_matches(c.labels@[j], q@),
        decreases c.labels@.len() - i,
    {
        let l = &c.labels[i];
        if contains_bytes(&l.key, &caddy) && !contains_bytes(&l.key, &dot) && bytes_eq(&l.value, q)
        {
            return true;
        }
        i += 1;
    }
    false
}

/// Some locally running container routes the queried name (executable).
pub fn any_container_matches(cs: &Vec<ContainerInfo>, q: &Vec<u8>) -> (r: bool)
    ensures
        r == spec_any_container_matches(cs@, q@),
{
    let mut i: usize = 0;
    while i < cs.len()
        invariant
            i <= cs@.len(),
            forall|j: int| 0 <= j < i ==> !spec_container_matches(cs@[j], q@),
        decreases cs@.len() - i,
    {
        if container_matches(&cs[i], q) {
            return true;
        }
        i += 1;
    }
    false
}

/// The container advertises itself as an upstream resolver (executable).
pub fn is_dns_server(c: &ContainerInfo) -> (r: bool)
    ensures
        r == spec_is_dns_server(*c),
{
    let key = dns_server_pattern();
    let mut i: usize = 0;
    while i < c.labels.len()
        invariant
            i <= c.labels@.len(),
            key@ == spec_dns_server_key(),
            forall|j: int| 0 <= j < i ==> c.labels@[j].key@ != spec_dns_server_key(),
        decreases c.labels@.len() - i,
    {
        if bytes_eq(&c.labels[i].key, &key) {
            return true;
        }
        i += 1;
    }
    false
}

/// Some container advertises itself as an upstream resolver (executable).
pub fn has_upstream(cs: &Vec<ContainerInfo>) -> (r: bool)
    ensures
        r == spec_has_upstream(cs@),
{
    let mut i: usize = 0;
    while i < cs.len()
        invariant
            i <= cs@.len(),
            forall|j: int| 0 <= j < i ==> !spec_is_dns_server(cs@[j]),
        decreases cs@.len() - i,
    {
        if is_dns_server(&cs[i]) {
            return true;
        }
        i += 1;
    }
    false
}

/// Answer question `q` positively, or drop where the builder refuses.
fn answer_question(env: &HostEnv, msg: &DnsMessage, q: &Vec<u8>) -> (r: Ret)
    ensures
        ret_view(r) == spec_answer_ret(*env, *msg, q@),
{
    match build_a_answer(&msg.bytes, q, ANSWER_TTL_SECS, env.ip0, env.ip1, env.ip2, env.ip3) {
        Some(b) => Ret::Resp(b),
        None => Ret::NoOp,
    }
}

/// Process questions of `msg` from index `start` on, in the server
/// variant, until an outcome is final or an upstream consultation is
/// needed.
pub fn process_step(env: &HostEnv, msg: &DnsMessage, src: Endpoint, start: usize) -> (r: StepResult)
    requires
        env.wf(),
    ensures
        step_result_view(r) == spec_step(*env, *msg, src, start as int),
{
    let mut i: usize = start;
    if i > msg.questions.len() {
        i = msg.questions.len();
    }
    proof {
        assert(spec_step(*env, *msg, src, start as int) == spec_step(*env, *msg, src, i as int));
    }
    while i < msg.questions.len()
        invariant
            env.wf(),
            i <= msg.questions@.len(),
            spec_step(*env, *msg, src, start as int) == spec_step(*env, *msg, src, i as int),
        decreases msg.questions@.len() - i,
    {
        let q = &msg.questions[i];
        if in_domain(&env.domain, q) {
            if self_match(&env.host_name, &env.domain, q) {
                return StepResult::Done(answer_question(env, msg, q));
            }
            if any_container_matches(&env.containers, q) {
                return StepResult::Done(answer_question(env, msg, q));
            }
            if !src.is_multicast() {
                return StepResult::Done(Ret::SendToMesh(copy_bytes(&msg.bytes), src));
            }
        } else {
            if has_upstream(&env.containers) {
                return StepResult::NeedUpstream(i);
            }
        }
        proof {
            assert(spec_step(*env, *msg, src, i as int) == spec_step(*env, *msg, src, i + 1));
        }
        i += 1;
    }
    if src.is_multicast() {
        StepResult::Done(Ret::NoOp)
    } else {
        StepResult::Done(Ret::SendToMesh(copy_bytes(&msg.bytes), src))
    }
}

/// Continue processing after an upstream consultation for question `i`: a
/// reply is the final answer, verbatim; a timeout advances to the next
/// question.
pub fn process_resume(
    env: &HostEnv,
    msg: &DnsMessage,
    src: Endpoint,
    i: usize,
    reply: Option<Vec<u8>>,
) -> (r: StepResult)
    requires
        env.wf(),
        i < usize::MAX,
    ensures
        step_result_view(r) == match reply {
            Some(b) => StepView::Done(RetView::Resp(b@)),
            None => spec_step(*env, *msg, src, i + 1),
        },
{
    match reply {
        Some(b) => StepResult::Done(Ret::Resp(b)),
        None => process_step(env, msg, src, i + 1),
    }
}

/// Process a query in the endpoint variant: answer what matches locally,
/// do nothing otherwise.
pub fn process_query_endpoint(env: &HostEnv, msg: &DnsMessage) -> (r: Ret)
    requires
        env.wf(),
    ensures
        ret_view(r) == spec_endpoint_step(*env, *msg, 0),
{
    let mut i: usize = 0;
    while i < msg.questions.len()
        invariant
            env.wf(),
            i <= msg.questions@.len(),
            spec_endpoint_step(*env, *msg, 0) == spec_endpoint_step(*env, *msg, i as int),
        decreases msg.questions@.len() - i,
    {
        let q = &msg.questions[i];
        if in_domain(&env.domain, q) && (self_match(&env.host_name, &env.domain, q)
            || any_container_matches(&env.containers, q)) {
            return answer_question(env, msg, q);
        }
        proof {
            assert(spec_endpoint_step(*env, *msg, i as int) == spec_endpoint_step(
                *env,
                *msg,
                i + 1,
            ));
        }
        i += 1;
    }
    Ret::NoOp
}

/// No feedback loop: processing a datagram whose source is multicast never
/// yields a `SendToMesh` outcome, at any question index; an upstream reply
/// resumed through `process_resume` yields `Resp`, likewise never
/// `SendToMesh`.
pub proof fn lemma_no_feedback_loop(env: HostEnv, msg: DnsMessage, src: Endpoint, i: int)
    requires
        src.spec_is_multicast(),
    ensures
        !(spec_step(env, msg, src, i) matches StepView::Done(RetView::SendToMesh(_, _))),
    decreases msg.questions@.len() - i,
{
    if 0 <= i < msg.questions@.len() {
        let q = msg.questions@[i]@;
        if spec_in_domain(env.domain@, q) {
            if !spec_self_match(env.host_name@, env.domain@, q) && !spec_any_container_matches(
                env.containers@,
                q,
            ) {
                lemma_no_feedback_loop(env, msg, src, i + 1);
            }
        } else {
            if !spec_has_upstream(env.containers@) {
                lemma_no_feedback_loop(env, msg, src, i + 1);
            }
        }
    }
}

/// Processing is a function of the environment, the query bytes and the
/// decoded questions: two byte-identical queries resolve identically, so
/// repeated queries are answered byte-identically.
pub proof fn lemma_processing_deterministic(
    env: HostEnv,
    msg1: DnsMessage,
    msg2: DnsMessage,
    src: Endpoint,
    i: int,
)
    requires
        msg1.bytes@ == msg2.bytes@,
        msg1.questions@.map_values(|q: Vec<u8>| q@) == msg2.questions@.map_values(
            |q: Vec<u8>| q@,
        ),
    ensures
        spec_step(env, msg1, src, i) == spec_step(env, msg2, src, i),
    decreases msg1.questions@.len() - i,
{
    let v1 = msg1.questions@.map_values(|q: Vec<u8>| q@);
    let v2 = msg2.questions@.map_values(|q: Vec<u8>| q@);
    assert(msg1.questions@.len() == v1.len());
    assert(msg2.questions@.len() == v2.len());
    if 0 <= i < msg1.questions@.len() {
        assert(v1[i] == v2[i]);
        assert(msg1.questions@[i]@ == msg2.questions@[i]@);
        lemma_processing_deterministic(env, msg1, msg2, src, i + 1);
    }
}

/// Suffix and self matching are ASCII-case-insensitive: two queried names
/// with the same folded form receive the same in-domain and self-match
/// verdicts. (Container-label matching is case-sensitive by design and is
/// not covered.)
pub proof fn lemma_suffix_case_insensitive(host: Seq<u8>, domain: Seq<u8>, q1: Seq<u8>, q2: Seq<u8>)
    requires
        lower_seq(q1) == lower_seq(q2),
    ensures
        spec_in_domain(domain, q1) == spec_in_domain(domain, q2),
        spec_self_match(host, domain, q1) == spec_self_match(host, domain, q2),
{
}

} // verus!
