//! Routing of volume commands: which playback streams a command acts on.
//! Streams are matched through the client processes that own them and are
//! deduplicated by stream index.

use vstd::prelude::*;
use vstd::string::*;

use crate::pactl::{
    clients_view, default_input, inputs_view, ClientView, InputView, PactlClient, PactlInput,
};
use crate::text::{
    contains_sub, decimal_number, lemma_contains_self, lemma_contains_trans, parse_decimal,
    str_contains, str_eq,
};

verus! {

/// Stream `i` belongs to client `c`: its owner field reads as `c`'s index.
pub open spec fn owns(c: ClientView, i: InputView) -> bool {
    decimal_number(i.client, u32::MAX as nat) == Some(c.index as nat)
}

/// Client `c` runs a binary whose name contains `app`.
pub open spec fn client_matches(c: ClientView, app: Seq<char>) -> bool {
    contains_sub(c.binary, app)
}

pub open spec fn matches_app(app: Seq<char>) -> spec_fn(ClientView) -> bool {
    |c: ClientView| client_matches(c, app)
}

/// Stream `i` belongs to some client of `cs` whose binary name contains
/// `app`.
pub open spec fn owned_by_match(cs: Seq<ClientView>, app: Seq<char>, i: InputView) -> bool {
    exists|k: int| 0 <= k < cs.len() && client_matches(cs[k], app) && owns(cs[k], i)
}

pub open spec fn owned_by_match_fn(cs: Seq<ClientView>, app: Seq<char>) -> spec_fn(
    InputView,
) -> bool {
    |i: InputView| owned_by_match(cs, app, i)
}

/// The clients whose binary name contains `app`, in their order.
pub fn get_client_matches(app: &str, clients: &Vec<PactlClient>) -> (r: Vec<PactlClient>)
    ensures
        clients_view(r@) == clients_view(clients@).filter(matches_app(app@)),
{
    let mut out: Vec<PactlClient> = Vec::new();
    let mut i: usize = 0;
    while i < clients.len()
        invariant
            0 <= i <= clients.len(),
            clients_view(out@) == clients_view(clients@).subrange(0, i as int).filter(
                matches_app(app@),
            ),
        decreases clients.len() - i,
    {
        let ghost cv = clients_view(clients@);
        let ghost before = clients_view(out@);
        proof {
            reveal(Seq::filter);
            assert(cv.subrange(0, i + 1).drop_last() =~= cv.subrange(0, i as int));
            assert(cv.subrange(0, i + 1).last() == clients@[i as int]@);
        }
        let c = &clients[i];
        if str_contains(c.application_process_binary.as_str(), app) {
            out.push(c.clone());
            assert(clients_view(out@) =~= before.push(c@));
        }
        i = i + 1;
    }
    assert(clients_view(clients@).subrange(0, clients.len() as int) =~= clients_view(clients@));
    out
}

/// Whether the stream whose owner field is `owner` belongs to a client of
/// `clients` whose binary name contains `app`.
fn owned_by_match_exec(clients: &Vec<PactlClient>, app: &str, owner: &str) -> (r: bool)
    ensures
        r == owned_by_match(
            clients_view(clients@),
            app@,
            InputView { index: Seq::empty(), sink: 0, client: owner@ },
        ),
{
    let ghost cv = clients_view(clients@);
    let ghost iv = InputView { index: Seq::empty(), sink: 0, client: owner@ };
    let id = parse_decimal(owner, u32::MAX);
    match id {
        None => {
            assert forall|k: int| 0 <= k < cv.len() implies !owns(cv[k], iv) by {}
            false
        },
        Some(id) => {
            let mut k: usize = 0;
            while k < clients.len()
                invariant
                    0 <= k <= clients.len(),
                    cv == clients_view(clients@),
                    iv == (InputView { index: Seq::empty(), sink: 0, client: owner@ }),
                    decimal_number(owner@, u32::MAX as nat) == Some(id as nat),
                    forall|kk: int|
                        0 <= kk < k ==> !(client_matches(cv[kk], app@) && owns(cv[kk], iv)),
                decreases clients.len() - k,
            {
                let c = &clients[k];
                assert(cv[k as int] == c@);
                if c.index == id && str_contains(c.application_process_binary.as_str(), app) {
                    assert(client_matches(cv[k as int], app@) && owns(cv[k as int], iv));
                    return true;
                }
                k = k + 1;
            }
            false
        },
    }
}

impl PactlClient {
    /// The streams owned by any client of `clients` whose binary name
    /// contains this client's binary name, in their order in `inputs`.
    pub fn get_inputs(&self, clients: &Vec<PactlClient>, inputs: &Vec<PactlInput>) -> (r: Vec<
        PactlInput,
    >)
        ensures
            inputs_view(r@) == inputs_view(inputs@).filter(
                owned_by_match_fn(clients_view(clients@), self@.binary),
            ),
    {
        let ghost pred = owned_by_match_fn(clients_view(clients@), self@.binary);
        let mut out: Vec<PactlInput> = Vec::new();
        let mut i: usize = 0;
        while i < inputs.len()
            invariant
                0 <= i <= inputs.len(),
                pred == owned_by_match_fn(clients_view(clients@), self@.binary),
                inputs_view(out@) == inputs_view(inputs@).subrange(0, i as int).filter(pred),
            decreases inputs.len() - i,
        {
            let ghost iv = inputs_view(inputs@);
            let ghost before = inputs_view(out@);
            proof {
                reveal(Seq::filter);
                assert(iv.subrange(0, i + 1).drop_last() =~= iv.subrange(0, i as int));
                assert(iv.subrange(0, i + 1).last() == inputs@[i as int]@);
            }
            let input = &inputs[i];
            let hit = owned_by_match_exec(
                clients,
                self.application_process_binary.as_str(),
                input.client.as_str(),
            );
            proof {
                let probe = InputView { index: Seq::empty(), sink: 0, client: input@.client };
                assert(forall|c: ClientView| owns(c, probe) == owns(c, input@));
            }
            if hit {
                out.push(input.clone());
                assert(inputs_view(out@) =~= before.push(input@));
            }
            i = i + 1;
        }
        assert(inputs_view(inputs@).subrange(0, inputs.len() as int) =~= inputs_view(inputs@));
        out
    }
}

/// The streams that each client of `ms` gathers in turn (see
/// `PactlClient::get_inputs`), one after another.
pub open spec fn gathered(ms: Seq<ClientView>, cs: Seq<ClientView>, ins: Seq<InputView>) -> Seq<
    InputView,
>
    decreases ms.len(),
{
    if ms.len() == 0 {
        Seq::empty()
    } else {
        gathered(ms.drop_last(), cs, ins) + ins.filter(owned_by_match_fn(cs, ms.last().binary))
    }
}

/// Some stream of `s` has index `idx`.
pub open spec fn has_index(s: Seq<InputView>, idx: Seq<char>) -> bool {
    exists|j: int| 0 <= j < s.len() && s[j].index == idx
}

/// `s` without the streams whose index an earlier stream already has.
pub open spec fn dedup_by_index(s: Seq<InputView>) -> Seq<InputView>
    decreases s.len(),
{
    if s.len() == 0 {
        s
    } else {
        let d = dedup_by_index(s.drop_last());
        if has_index(d, s.last().index) {
            d
        } else {
            d.push(s.last())
        }
    }
}

/// Whether a stream of `v` has index `idx`.
fn has_index_exec(v: &Vec<PactlInput>, idx: &str) -> (r: bool)
    ensures
        r == has_index(inputs_view(v@), idx@),
{
    let ghost vv = inputs_view(v@);
    let mut j: usize = 0;
    while j < v.len()
        invariant
            0 <= j <= v.len(),
            vv == inputs_view(v@),
            forall|jj: int| 0 <= jj < j ==> vv[jj].index != idx@,
        decreases v.len() - j,
    {
        if str_eq(v[j].index.as_str(), idx) {
            assert(vv[j as int].index == idx@);
            return true;
        }
        j = j + 1;
    }
    false
}

/// Gathers, for a list of clients, the streams that each finds.
pub trait Condense {
    fn condense(&self, clients: &Vec<PactlClient>, inputs: &Vec<PactlInput>) -> Vec<PactlInput>;
}

impl Condense for Vec<PactlClient> {
    /// The streams that the clients of `self` gather in turn from `inputs`
    /// (each those owned by a client of `clients` whose binary name contains
    /// its own), keeping the first stream of each index.
    fn condense(&self, clients: &Vec<PactlClient>, inputs: &Vec<PactlInput>) -> (r: Vec<
        PactlInput,
    >)
        ensures
            inputs_view(r@) == dedup_by_index(
                gathered(clients_view(self@), clients_view(clients@), inputs_view(inputs@)),
            ),
    {
        let ghost cs = clients_view(clients@);
        let ghost ins = inputs_view(inputs@);
        let ghost ms = clients_view(self@);
        let mut acc: Vec<PactlInput> = Vec::new();
        let mut i: usize = 0;
        while i < self.len()
            invariant
                0 <= i <= self.len(),
                cs == clients_view(clients@),
                ins == inputs_view(inputs@),
                ms == clients_view(self@),
                inputs_view(acc@) == gathered(ms.subrange(0, i as int), cs, ins),
            decreases self.len() - i,
        {
            let part = self[i].get_inputs(clients, inputs);
            let ghost start = inputs_view(acc@);
            assert(ms.subrange(0, i + 1).drop_last() =~= ms.subrange(0, i as int));
            assert(ms.subrange(0, i + 1).last() == self@[i as int]@);
            let mut j: usize = 0;
            while j < part.len()
                invariant
                    0 <= j <= part.len(),
                    inputs_view(acc@) == start + inputs_view(part@).subrange(0, j as int),
                decreases part.len() - j,
            {
                let ghost before = inputs_view(acc@);
                let y = part[j].clone();
                acc.push(y);
                assert(inputs_view(acc@) =~= before.push(y@));
                assert(inputs_view(part@)[j as int] == y@);
                assert(inputs_view(acc@) =~= start + inputs_view(part@).subrange(0, j + 1));
                j = j + 1;
            }
            assert(inputs_view(part@).subrange(0, part.len() as int) =~= inputs_view(part@));
            i = i + 1;
        }
        assert(ms.subrange(0, self.len() as int) =~= ms);
        let ghost all = inputs_view(acc@);
        let mut out: Vec<PactlInput> = Vec::new();
        let mut k: usize = 0;
        while k < acc.len()
            invariant
                0 <= k <= acc.len(),
                all == inputs_view(acc@),
                inputs_view(out@) == dedup_by_index(all.subrange(0, k as int)),
            decreases acc.len() - k,
        {
            let x = &acc[k];
            assert(all.subrange(0, k + 1).drop_last() =~= all.subrange(0, k as int));
            assert(all.subrange(0, k + 1).last() == x@);
            if !has_index_exec(&out, x.index.as_str()) {
                let ghost before = inputs_view(out@);
                out.push(x.clone());
                assert(inputs_view(out@) =~= before.push(x@));
            }
            k = k + 1;
        }
        assert(all.subrange(0, acc.len() as int) =~= all);
        out
    }
}

/// The view of an optional string slice.
pub open spec fn opt_str_view(o: Option<&str>) -> Option<Seq<char>> {
    match o {
        Some(a) => Some(a@),
        None => None,
    }
}

/// The targets of a command for application `app`: the default output when
/// no application is named; otherwise the streams owned by the clients whose
/// binary name contains `app`, one per stream index.
pub open spec fn resolve_spec(app: Option<Seq<char>>, cs: Seq<ClientView>, ins: Seq<InputView>) -> Seq<
    InputView,
> {
    match app {
        None => seq![default_input()],
        Some(a) => dedup_by_index(gathered(cs.filter(matches_app(a)), cs, ins)),
    }
}

/// The targets that a command for `app` acts on, given the audio server's
/// current clients and streams.
pub fn resolve(app: Option<&str>, clients: &Vec<PactlClient>, inputs: &Vec<PactlInput>) -> (r: Vec<
    PactlInput,
>)
    ensures
        inputs_view(r@) == resolve_spec(opt_str_view(app), clients_view(clients@), inputs_view(inputs@)),
{
    match app {
        None => {
            let mut r: Vec<PactlInput> = Vec::new();
            r.push(PactlInput::default());
            assert(inputs_view(r@) =~= seq![default_input()]);
            r
        },
        Some(a) => {
            let matched = get_client_matches(a, clients);
            matched.condense(clients, inputs)
        },
    }
}

proof fn lemma_filter_membership<A>(s: Seq<A>, p: spec_fn(A) -> bool, x: A)
    ensures
        s.filter(p).contains(x) <==> (s.contains(x) && p(x)),
{
    broadcast use Seq::lemma_filter_pred, Seq::lemma_filter_contains;

    if s.filter(p).contains(x) {
        s.lemma_filter_contains_rev(p, x);
        let i = choose|i: int| 0 <= i < s.filter(p).len() && s.filter(p)[i] == x;
        assert(p(s.filter(p)[i]));
    }
    if s.contains(x) && p(x) {
        let i = choose|i: int| 0 <= i < s.len() && s[i] == x;
        assert(s.filter(p).contains(s[i]));
    }
}

proof fn lemma_concat_contains<A>(a: Seq<A>, b: Seq<A>, x: A)
    ensures
        (a + b).contains(x) <==> (a.contains(x) || b.contains(x)),
{
    if (a + b).contains(x) {
        let i = choose|i: int| 0 <= i < (a + b).len() && (a + b)[i] == x;
        if i < a.len() {
            assert(a[i] == x);
        } else {
            assert(b[i - a.len()] == x);
        }
    }
    if a.contains(x) {
        let i = choose|i: int| 0 <= i < a.len() && a[i] == x;
        assert((a + b)[i] == x);
    }
    if b.contains(x) {
        let i = choose|i: int| 0 <= i < b.len() && b[i] == x;
        assert((a + b)[i + a.len()] == x);
    }
}

/// What `dedup_by_index` keeps: streams of `s`, pairwise of different
/// index, and one of each index that `s` holds.
proof fn lemma_dedup(s: Seq<InputView>)
    ensures
        forall|j: int| 0 <= j < dedup_by_index(s).len() ==> s.contains(#[trigger] dedup_by_index(s)[j]),
        forall|i: int| 0 <= i < s.len() ==> has_index(dedup_by_index(s), #[trigger] s[i].index),
        forall|j1: int, j2: int|
            0 <= j1 < j2 < dedup_by_index(s).len() ==> #[trigger] dedup_by_index(s)[j1].index
                != #[trigger] dedup_by_index(s)[j2].index,
    decreases s.len(),
{
    if s.len() > 0 {
        let t = s.drop_last();
        lemma_dedup(t);
        let d = dedup_by_index(t);
        let r = dedup_by_index(s);
        let last = s.last();
        assert forall|j: int| 0 <= j < r.len() implies s.contains(#[trigger] r[j]) by {
            if j < d.len() {
                assert(t.contains(d[j]));
                let i = choose|i: int| 0 <= i < t.len() && t[i] == d[j];
                assert(s[i] == t[i]);
            } else {
                assert(s[s.len() - 1] == r[j]);
            }
        }
        assert forall|i: int| 0 <= i < s.len() implies has_index(r, #[trigger] s[i].index) by {
            if i < t.len() {
                assert(t[i] == s[i]);
                assert(has_index(d, t[i].index));
                let j = choose|j: int| 0 <= j < d.len() && d[j].index == t[i].index;
                assert(r[j] == d[j]);
            } else if !has_index(d, last.index) {
                assert(r[d.len() as int] == last);
            }
        }
        assert forall|j1: int, j2: int|
            0 <= j1 < j2 < r.len() implies #[trigger] r[j1].index != #[trigger] r[j2].index by {
            if j2 < d.len() {
                assert(r[j1] == d[j1] && r[j2] == d[j2]);
            } else {
                assert(r[j2] == last);
                assert(r[j1] == d[j1]);
            }
        }
    }
}

/// A stream is gathered for the clients `ms` exactly when it is a stream of
/// `ins` that some client of `ms` gathers.
proof fn lemma_gathered_contains(
    ms: Seq<ClientView>,
    cs: Seq<ClientView>,
    ins: Seq<InputView>,
    x: InputView,
)
    ensures
        gathered(ms, cs, ins).contains(x) <==> (ins.contains(x) && exists|m: int|
            0 <= m < ms.len() && owned_by_match(cs, #[trigger] ms[m].binary, x)),
    decreases ms.len(),
{
    if ms.len() > 0 {
        let t = ms.drop_last();
        lemma_gathered_contains(t, cs, ins, x);
        let p = owned_by_match_fn(cs, ms.last().binary);
        lemma_concat_contains(gathered(t, cs, ins), ins.filter(p), x);
        lemma_filter_membership(ins, p, x);
        if exists|m: int| 0 <= m < ms.len() && owned_by_match(cs, #[trigger] ms[m].binary, x) {
            let m = choose|m: int| 0 <= m < ms.len() && owned_by_match(cs, #[trigger] ms[m].binary, x);
            if m < t.len() {
                assert(t[m] == ms[m]);
            }
        }
        if exists|m: int| 0 <= m < t.len() && owned_by_match(cs, #[trigger] t[m].binary, x) {
            let m = choose|m: int| 0 <= m < t.len() && owned_by_match(cs, #[trigger] t[m].binary, x);
            assert(ms[m] == t[m]);
        }
    }
}

/// For the clients that match `app`, the gathered streams are exactly the
/// streams owned by a client that matches `app`.
proof fn lemma_gathered_for_app(cs: Seq<ClientView>, app: Seq<char>, ins: Seq<InputView>, x: InputView)
    ensures
        gathered(cs.filter(matches_app(app)), cs, ins).contains(x) <==> (ins.contains(x)
            && owned_by_match(cs, app, x)),
{
    let ms = cs.filter(matches_app(app));
    lemma_gathered_contains(ms, cs, ins, x);
    if exists|m: int| 0 <= m < ms.len() && owned_by_match(cs, #[trigger] ms[m].binary, x) {
        let m = choose|m: int| 0 <= m < ms.len() && owned_by_match(cs, #[trigger] ms[m].binary, x);
        assert(ms.contains(ms[m]));
        lemma_filter_membership(cs, matches_app(app), ms[m]);
        let k = choose|k: int|
            0 <= k < cs.len() && client_matches(cs[k], ms[m].binary) && owns(cs[k], x);
        lemma_contains_trans(cs[k].binary, ms[m].binary, app);
        assert(client_matches(cs[k], app));
    }
    if owned_by_match(cs, app, x) {
        let k = choose|k: int| 0 <= k < cs.len() && client_matches(cs[k], app) && owns(cs[k], x);
        assert(cs.contains(cs[k]));
        lemma_filter_membership(cs, matches_app(app), cs[k]);
        let m = choose|m: int| 0 <= m < ms.len() && ms[m] == cs[k];
        lemma_contains_self(cs[k].binary);
        assert(owned_by_match(cs, ms[m].binary, x));
    }
}

/// Without an application, a command acts on the default output alone.
pub proof fn lemma_resolve_none(cs: Seq<ClientView>, ins: Seq<InputView>)
    ensures
        resolve_spec(None, cs, ins) == seq![default_input()],
{
}

/// With an application, a command acts on streams of the server, each owned
/// by a client whose binary name contains the application name; on every
/// such stream's index; and on each index once.
pub proof fn lemma_resolve_app(app: Seq<char>, cs: Seq<ClientView>, ins: Seq<InputView>)
    ensures
        forall|j: int|
            0 <= j < resolve_spec(Some(app), cs, ins).len() ==> ins.contains(
                #[trigger] resolve_spec(Some(app), cs, ins)[j],
            ) && owned_by_match(cs, app, resolve_spec(Some(app), cs, ins)[j]),
        forall|i: int|
            0 <= i < ins.len() && owned_by_match(cs, app, ins[i]) ==> has_index(
                resolve_spec(Some(app), cs, ins),
                #[trigger] ins[i].index,
            ),
        forall|j1: int, j2: int|
            0 <= j1 < j2 < resolve_spec(Some(app), cs, ins).len() ==> #[trigger] resolve_spec(
                Some(app),
                cs,
                ins,
            )[j1].index != #[trigger] resolve_spec(Some(app), cs, ins)[j2].index,
{
    let g = gathered(cs.filter(matches_app(app)), cs, ins);
    let r = resolve_spec(Some(app), cs, ins);
    lemma_dedup(g);
    assert forall|j: int| 0 <= j < r.len() implies ins.contains(#[trigger] r[j]) && owned_by_match(
        cs,
        app,
        r[j],
    ) by {
        assert(g.contains(r[j]));
        lemma_gathered_for_app(cs, app, ins, r[j]);
    }
    assert forall|i: int| 0 <= i < ins.len() && owned_by_match(cs, app, ins[i]) implies has_index(
        r,
        #[trigger] ins[i].index,
    ) by {
        lemma_gathered_for_app(cs, app, ins, ins[i]);
        let gi = choose|gi: int| 0 <= gi < g.len() && g[gi] == ins[i];
        assert(has_index(r, g[gi].index));
    }
}

/// When no client's binary name contains the application name, a command
/// for it acts on nothing: there is no fallback to the default output.
pub proof fn lemma_resolve_no_match(app: Seq<char>, cs: Seq<ClientView>, ins: Seq<InputView>)
    requires
        forall|k: int| 0 <= k < cs.len() ==> !client_matches(#[trigger] cs[k], app),
    ensures
        resolve_spec(Some(app), cs, ins).len() == 0,
{
    lemma_resolve_app(app, cs, ins);
    let r = resolve_spec(Some(app), cs, ins);
    if r.len() > 0 {
        assert(owned_by_match(cs, app, r[0]));
    }
}

/// A stream index that some matching client's stream has is acted on
/// exactly once, however many matching clients or streams share it.
pub proof fn lemma_resolve_once(app: Seq<char>, cs: Seq<ClientView>, ins: Seq<InputView>, i: int)
    requires
        0 <= i < ins.len(),
        owned_by_match(cs, app, ins[i]),
    ensures
        exists|j: int|
            0 <= j < resolve_spec(Some(app), cs, ins).len() && resolve_spec(Some(app), cs, ins)[j].index
                == ins[i].index && forall|j2: int|
                0 <= j2 < resolve_spec(Some(app), cs, ins).len() && j2 != j ==> resolve_spec(
                    Some(app),
                    cs,
                    ins,
                )[j2].index != ins[i].index,
{
    lemma_resolve_app(app, cs, ins);
    let r = resolve_spec(Some(app), cs, ins);
    assert(has_index(r, ins[i].index));
    let j = choose|j: int| 0 <= j < r.len() && r[j].index == ins[i].index;
    assert forall|j2: int| 0 <= j2 < r.len() && j2 != j implies r[j2].index != ins[i].index by {
        if j2 < j {
            assert(r[j2].index != r[j].index);
        } else {
            assert(r[j].index != r[j2].index);
        }
    }
}

} // verus!
