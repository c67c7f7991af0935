use vstd::prelude::*;
use vstd::utf8::is_ascii_chars;

use crate::addr::{addr_text, SockAddr};
use crate::command::{Command, CommandModel};
use crate::proxy::{CertError, Type};
use crate::service::{Service, ServiceModel};
use crate::text::{debug_quoted, debug_text, str_eq};

verus! {

/// The domain that `name` is routed under: `<name>.<tld>`.
pub open spec fn domain_of(name: Seq<char>, tld: Seq<char>) -> Seq<char> {
    name + seq!['.'] + tld
}

/// The route table after one command. Registering replaces an earlier route of the same
/// domain; deregistering an absent domain changes nothing; a status query changes nothing.
pub open spec fn step(
    m: Map<Seq<char>, ServiceModel>,
    tld: Seq<char>,
    c: CommandModel,
) -> Map<Seq<char>, ServiceModel> {
    match c {
        CommandModel::Register { name, addr, proxy } => m.insert(
            domain_of(name, tld),
            ServiceModel { domain: domain_of(name, tld), addr, kind: proxy },
        ),
        CommandModel::Deregister { name } => m.remove(domain_of(name, tld)),
        CommandModel::Status { .. } => m,
    }
}

/// One line of the full status: `<domain> -> <addr>`.
pub open spec fn status_line(s: ServiceModel) -> Seq<char> {
    s.domain + seq![' ', '-', '>', ' '] + addr_text(s.addr) + seq!['\n']
}

/// The lines of the full status for services listed in this order.
pub open spec fn status_lines(l: Seq<ServiceModel>) -> Seq<char>
    decreases l.len(),
{
    if l.len() == 0 {
        seq![]
    } else {
        status_lines(l.drop_last()) + status_line(l.last())
    }
}

/// `l` lists every route of `m` once, in some order.
pub open spec fn lists(l: Seq<ServiceModel>, m: Map<Seq<char>, ServiceModel>) -> bool {
    &&& forall|i: int, j: int| 0 <= i < j < l.len() ==> l[i].domain != l[j].domain
    &&& forall|i: int|
        0 <= i < l.len() ==> m.contains_key(#[trigger] l[i].domain) && m[l[i].domain] == l[i]
    &&& forall|d: Seq<char>| #[trigger]
        m.contains_key(d) ==> exists|i: int| 0 <= i < l.len() && l[i].domain == d
}

/// The reply to a query for one domain: `ok Some("<domain>")` or `ok None`.
pub open spec fn status_one(m: Map<Seq<char>, ServiceModel>, d: Seq<char>) -> Seq<char> {
    if m.contains_key(d) {
        seq!['o', 'k', ' ', 'S', 'o', 'm', 'e', '('] + debug_text(d) + seq![')']
    } else {
        seq!['o', 'k', ' ', 'N', 'o', 'n', 'e']
    }
}

/// Whether `text` answers a status query for `name` (all routes when absent).
pub open spec fn is_status_reply(
    m: Map<Seq<char>, ServiceModel>,
    tld: Seq<char>,
    name: Option<Seq<char>>,
    text: Seq<char>,
) -> bool {
    match name {
        Some(n) => text == status_one(m, domain_of(n, tld)),
        None => exists|l: Seq<ServiceModel>| lists(l, m) && text == status_lines(l),
    }
}

proof fn lemma_lists_update(
    l: Seq<ServiceModel>,
    m: Map<Seq<char>, ServiceModel>,
    i: int,
    s: ServiceModel,
)
    requires
        lists(l, m),
        0 <= i < l.len(),
        l[i].domain == s.domain,
    ensures
        lists(l.update(i, s), m.insert(s.domain, s)),
{
    let a = l.update(i, s);
    let m2 = m.insert(s.domain, s);
    assert forall|j: int| 0 <= j < a.len() implies m2.contains_key(#[trigger] a[j].domain)
        && m2[a[j].domain] == a[j] by {
        if j != i {
            assert(a[j] == l[j]);
            assert(l[j].domain != l[i].domain);
        }
    }
    assert forall|d: Seq<char>| #[trigger] m2.contains_key(d) implies exists|k: int|
        0 <= k < a.len() && a[k].domain == d by {
        if d != s.domain {
            let k = choose|k: int| 0 <= k < l.len() && l[k].domain == d;
            assert(a[k].domain == d);
        } else {
            assert(a[i].domain == d);
        }
    }
}

proof fn lemma_lists_push(l: Seq<ServiceModel>, m: Map<Seq<char>, ServiceModel>, s: ServiceModel)
    requires
        lists(l, m),
        !m.contains_key(s.domain),
    ensures
        lists(l.push(s), m.insert(s.domain, s)),
{
    let a = l.push(s);
    let m2 = m.insert(s.domain, s);
    assert forall|x: int, y: int| 0 <= x < y < a.len() implies a[x].domain != a[y].domain by {
        if y == l.len() {
            assert(m.contains_key(l[x].domain));
        }
    }
    assert forall|j: int| 0 <= j < a.len() implies m2.contains_key(#[trigger] a[j].domain)
        && m2[a[j].domain] == a[j] by {
        if j < l.len() {
            assert(a[j] == l[j]);
            assert(m.contains_key(l[j].domain));
        }
    }
    assert forall|d: Seq<char>| #[trigger] m2.contains_key(d) implies exists|k: int|
        0 <= k < a.len() && a[k].domain == d by {
        if d != s.domain {
            let k = choose|k: int| 0 <= k < l.len() && l[k].domain == d;
            assert(a[k].domain == d);
        } else {
            assert(a[l.len() as int].domain == d);
        }
    }
}

proof fn lemma_lists_remove(l: Seq<ServiceModel>, m: Map<Seq<char>, ServiceModel>, i: int)
    requires
        lists(l, m),
        0 <= i < l.len(),
    ensures
        lists(l.remove(i), m.remove(l[i].domain)),
{
    let a = l.remove(i);
    let d0 = l[i].domain;
    let m2 = m.remove(d0);
    assert forall|x: int, y: int| 0 <= x < y < a.len() implies a[x].domain != a[y].domain by {
        let x0 = if x < i { x } else { x + 1 };
        let y0 = if y < i { y } else { y + 1 };
        assert(a[x] == l[x0] && a[y] == l[y0]);
    }
    assert forall|j: int| 0 <= j < a.len() implies m2.contains_key(#[trigger] a[j].domain)
        && m2[a[j].domain] == a[j] by {
        let j0 = if j < i { j } else { j + 1 };
        assert(a[j] == l[j0]);
        assert(l[j0].domain != d0);
    }
    assert forall|d: Seq<char>| #[trigger] m2.contains_key(d) implies exists|k: int|
        0 <= k < a.len() && a[k].domain == d by {
        let k = choose|k: int| 0 <= k < l.len() && l[k].domain == d;
        assert(k != i);
        if k < i {
            assert(a[k].domain == d);
        } else {
            assert(a[k - 1].domain == d);
        }
    }
}

/// The route table after applying `cmds` in order to `m`.
pub open spec fn apply_all(
    m: Map<Seq<char>, ServiceModel>,
    tld: Seq<char>,
    cmds: Seq<CommandModel>,
) -> Map<Seq<char>, ServiceModel>
    decreases cmds.len(),
{
    if cmds.len() == 0 {
        m
    } else {
        step(apply_all(m, tld, cmds.drop_last()), tld, cmds.last())
    }
}

/// The names left registered by `cmds`: those whose last registration was not followed by a
/// deregistration.
pub open spec fn net_names(cmds: Seq<CommandModel>) -> Set<Seq<char>>
    decreases cmds.len(),
{
    if cmds.len() == 0 {
        Set::empty()
    } else {
        let s = net_names(cmds.drop_last());
        match cmds.last() {
            CommandModel::Register { name, .. } => s.insert(name),
            CommandModel::Deregister { name } => s.remove(name),
            CommandModel::Status { .. } => s,
        }
    }
}

/// Two names are routed under the same domain only if they are the same name.
pub proof fn lemma_domain_of_injective(a: Seq<char>, b: Seq<char>, tld: Seq<char>)
    requires
        domain_of(a, tld) == domain_of(b, tld),
    ensures
        a == b,
{
    let x = domain_of(a, tld);
    assert(x.len() == a.len() + 1 + tld.len());
    assert(domain_of(b, tld).len() == b.len() + 1 + tld.len());
    assert(a.len() == b.len());
    assert(x.subrange(0, a.len() as int) =~= a);
    assert(x.subrange(0, b.len() as int) =~= b);
}

/// From an empty table, any sequence of commands leaves routes for exactly the domains of the
/// names it left registered.
pub proof fn lemma_net_routes(tld: Seq<char>, cmds: Seq<CommandModel>)
    ensures
        apply_all(Map::empty(), tld, cmds).dom() == net_names(cmds).map(
            |n: Seq<char>| domain_of(n, tld),
        ),
    decreases cmds.len(),
{
    let f = |n: Seq<char>| domain_of(n, tld);
    if cmds.len() == 0 {
        assert(net_names(cmds).map(f) =~= Set::<Seq<char>>::empty());
        assert(apply_all(Map::empty(), tld, cmds).dom() =~= Set::<Seq<char>>::empty());
    } else {
        let prev = cmds.drop_last();
        lemma_net_routes(tld, prev);
        let n0 = net_names(prev);
        let d0 = apply_all(Map::empty(), tld, prev).dom();
        assert(d0 == n0.map(f));
        match cmds.last() {
            CommandModel::Register { name, .. } => {
                assert(net_names(cmds) == n0.insert(name));
                assert forall|x: Seq<char>|
                    #![auto]
                    n0.insert(name).map(f).contains(x) <==> d0.insert(f(name)).contains(x) by {
                    if d0.insert(f(name)).contains(x) && x != f(name) {
                        assert(n0.map(f).contains(x));
                        let y = choose|y: Seq<char>| n0.contains(y) && x == f(y);
                        assert(n0.insert(name).contains(y));
                    }
                    if x == f(name) {
                        assert(n0.insert(name).contains(name));
                    }
                }
                assert(n0.insert(name).map(f) =~= d0.insert(f(name)));
            },
            CommandModel::Deregister { name } => {
                assert(net_names(cmds) == n0.remove(name));
                assert forall|x: Seq<char>|
                    #![auto]
                    n0.remove(name).map(f).contains(x) <==> d0.remove(f(name)).contains(x) by {
                    if n0.remove(name).map(f).contains(x) {
                        let y = choose|y: Seq<char>| n0.remove(name).contains(y) && x == f(y);
                        assert(n0.contains(y));
                        if x == f(name) {
                            lemma_domain_of_injective(y, name, tld);
                        }
                    }
                    if d0.remove(f(name)).contains(x) {
                        assert(n0.map(f).contains(x));
                        let y = choose|y: Seq<char>| n0.contains(y) && x == f(y);
                        assert(y != name);
                        assert(n0.remove(name).contains(y));
                    }
                }
                assert(n0.remove(name).map(f) =~= d0.remove(f(name)));
            },
            CommandModel::Status { .. } => {},
        }
    }
}

/// The address and kind of the last registration of `name` in `cmds`, if any.
pub open spec fn last_registration(cmds: Seq<CommandModel>, name: Seq<char>) -> Option<
    (SockAddr, Type),
>
    decreases cmds.len(),
{
    if cmds.len() == 0 {
        None
    } else {
        match cmds.last() {
            CommandModel::Register { name: n, addr, proxy } => if n == name {
                Some((addr, proxy))
            } else {
                last_registration(cmds.drop_last(), name)
            },
            _ => last_registration(cmds.drop_last(), name),
        }
    }
}

/// From an empty table, the route of each name that a sequence of commands left registered
/// leads to the address and proxy kind of that name's last registration.
pub proof fn lemma_net_route_values(tld: Seq<char>, cmds: Seq<CommandModel>, name: Seq<char>)
    requires
        net_names(cmds).contains(name),
    ensures
        last_registration(cmds, name) is Some,
        apply_all(Map::empty(), tld, cmds).contains_key(domain_of(name, tld)),
        apply_all(Map::empty(), tld, cmds)[domain_of(name, tld)] == (ServiceModel {
            domain: domain_of(name, tld),
            addr: last_registration(cmds, name).unwrap().0,
            kind: last_registration(cmds, name).unwrap().1,
        }),
    decreases cmds.len(),
{
    let prev = cmds.drop_last();
    match cmds.last() {
        CommandModel::Register { name: n, .. } => {
            if n != name {
                lemma_net_route_values(tld, prev, name);
                if domain_of(n, tld) == domain_of(name, tld) {
                    lemma_domain_of_injective(n, name, tld);
                }
            }
        },
        CommandModel::Deregister { name: n } => {
            lemma_net_route_values(tld, prev, name);
            if domain_of(n, tld) == domain_of(name, tld) {
                lemma_domain_of_injective(n, name, tld);
            }
        },
        CommandModel::Status { .. } => {
            lemma_net_route_values(tld, prev, name);
        },
    }
}

/// After registering `name` at `addr`, the route of `<name>.<tld>` leads to `addr`, through a
/// proxy of the registered kind.
pub proof fn lemma_register_then_lookup(
    m: Map<Seq<char>, ServiceModel>,
    tld: Seq<char>,
    name: Seq<char>,
    addr: SockAddr,
    proxy: Type,
)
    ensures
        ({
            let after = step(m, tld, CommandModel::Register { name, addr, proxy });
            &&& after.contains_key(domain_of(name, tld))
            &&& after[domain_of(name, tld)].addr == addr
            &&& after[domain_of(name, tld)].kind == proxy
        }),
{
}

/// The route table: each fully qualified domain routed to one service.
pub struct Registry {
    domain: String,
    services: Vec<Service>,
    routes: Ghost<Map<Seq<char>, ServiceModel>>,
}

impl View for Registry {
    type V = Map<Seq<char>, ServiceModel>;

    closed spec fn view(&self) -> Map<Seq<char>, ServiceModel> {
        self.routes@
    }
}

impl Registry {
    /// The suffix that names are routed under.
    pub closed spec fn tld(&self) -> Seq<char> {
        self.domain@
    }

    /// The services hold distinct domains and are exactly the routes.
    pub closed spec fn wf(&self) -> bool {
        lists(self.services@.map_values(|s: Service| s@), self.routes@)
    }

    /// Each route is stored under its own domain.
    pub proof fn lemma_routes_keyed(&self)
        requires
            self.wf(),
        ensures
            forall|d: Seq<char>| #[trigger] self@.contains_key(d) ==> self@[d].domain == d,
    {
        let l = self.services@.map_values(|s: Service| s@);
        assert forall|d: Seq<char>| #[trigger] self@.contains_key(d) implies self@[d].domain
            == d by {
            let k = choose|k: int| 0 <= k < l.len() && l[k].domain == d;
            assert(self.routes@[l[k].domain] == l[k]);
        }
    }

    /// An empty table for names under `domain`.
    pub fn new(domain: &str) -> (r: Registry)
        ensures
            r.wf(),
            r@ == Map::<Seq<char>, ServiceModel>::empty(),
            r.tld() == domain@,
    {
        let r = Registry {
            domain: String::from_str(domain),
            services: Vec::new(),
            routes: Ghost(Map::empty()),
        };
        assert(r.services@.map_values(|s: Service| s@) =~= Seq::<ServiceModel>::empty());
        r
    }

    /// `<name>.<tld>`.
    pub fn domain_for(&self, name: &str) -> (r: String)
        ensures
            r@ == domain_of(name@, self.tld()),
    {
        proof {
            reveal_strlit(".");
        }
        let mut d = String::from_str(name);
        d.append(".");
        d.append(self.domain.as_str());
        assert(d@ =~= domain_of(name@, self.tld()));
        d
    }

    fn find(&self, domain: &str) -> (r: Option<usize>)
        requires
            self.wf(),
        ensures
            match r {
                Some(i) => i < self.services@.len() && self.services@[i as int].domain@ == domain@,
                None => !self@.contains_key(domain@),
            },
    {
        let ghost l = self.services@.map_values(|s: Service| s@);
        let mut i: usize = 0;
        while i < self.services.len()
            invariant
                i <= self.services@.len(),
                l == self.services@.map_values(|s: Service| s@),
                lists(l, self.routes@),
                forall|j: int| 0 <= j < i ==> self.services@[j].domain@ != domain@,
            decreases self.services@.len() - i,
        {
            if str_eq(self.services[i].domain.as_str(), domain) {
                return Some(i);
            }
            i = i + 1;
        }
        proof {
            if self.routes@.contains_key(domain@) {
                let k = choose|k: int| 0 <= k < l.len() && l[k].domain == domain@;
                assert(l[k].domain == self.services@[k].domain@);
            }
        }
        None
    }

    /// Routes the service's domain to it, replacing any earlier route of that domain.
    pub fn insert(&mut self, service: Service)
        requires
            old(self).wf(),
        ensures
            final(self).wf(),
            final(self).tld() == old(self).tld(),
            final(self)@ == old(self)@.insert(service@.domain, service@),
    {
        let ghost s = service@;
        let ghost before = self.services@.map_values(|x: Service| x@);
        match self.find(service.domain.as_str()) {
            Some(i) => {
                self.services.set(i, service);
                self.routes = Ghost(self.routes@.insert(s.domain, s));
                proof {
                    lemma_lists_update(before, old(self).routes@, i as int, s);
                    assert(self.services@.map_values(|x: Service| x@) =~= before.update(
                        i as int,
                        s,
                    ));
                }
            },
            None => {
                self.services.push(service);
                self.routes = Ghost(self.routes@.insert(s.domain, s));
                proof {
                    lemma_lists_push(before, old(self).routes@, s);
                    assert(self.services@.map_values(|x: Service| x@) =~= before.push(s));
                }
            },
        }
    }

    /// Drops the route of `domain`; nothing changes when there is none.
    pub fn remove(&mut self, domain: &str)
        requires
            old(self).wf(),
        ensures
            final(self).wf(),
            final(self).tld() == old(self).tld(),
            final(self)@ == old(self)@.remove(domain@),
    {
        let ghost before = self.services@.map_values(|x: Service| x@);
        match self.find(domain) {
            Some(i) => {
                self.services.remove(i);
                self.routes = Ghost(self.routes@.remove(domain@));
                proof {
                    assert(before[i as int].domain == domain@);
                    lemma_lists_remove(before, old(self).routes@, i as int);
                    assert(self.services@.map_values(|x: Service| x@) =~= before.remove(i as int));
                }
            },
            None => {
                assert(self.routes@.remove(domain@) =~= self.routes@);
            },
        }
    }

    /// The service routed under `domain`, if any; its proxy is shared with the table's.
    pub fn lookup(&self, domain: &str) -> (r: Option<Service>)
        requires
            self.wf(),
        ensures
            r is Some <==> self@.contains_key(domain@),
            r matches Some(s) ==> s@ == self@[domain@],
    {
        match self.find(domain) {
            Some(i) => {
                let ghost l = self.services@.map_values(|x: Service| x@);
                assert(l[i as int] == self.services@[i as int]@);
                assert(l[i as int].domain == domain@);
                Some(self.services[i].share())
            },
            None => None,
        }
    }
    /// The reply to a status query: the route of `<name>.<tld>` when a name is given, else one
    /// line per route.
    pub fn status(&self, name: Option<&str>) -> (r: String)
        requires
            self.wf(),
        ensures
            is_status_reply(
                self@,
                self.tld(),
                match name {
                    Some(n) => Some(n@),
                    None => None,
                },
                r@,
            ),
    {
        match name {
            Some(n) => {
                let d = self.domain_for(n);
                proof {
                    reveal_strlit("ok Some(");
                    reveal_strlit(")");
                    reveal_strlit("ok None");
                }
                proof {
                    self.lemma_routes_keyed();
                }
                match self.lookup(d.as_str()) {
                    Some(s) => {
                        let mut out = String::from_str("ok Some(");
                        let q = debug_quoted(s.domain.as_str());
                        out.append(q.as_str());
                        out.append(")");
                        assert(out@ =~= status_one(self@, d@));
                        out
                    },
                    None => {
                        let out = String::from_str("ok None");
                        assert(out@ =~= status_one(self@, d@));
                        out
                    },
                }
            },
            None => {
                let ghost l = self.services@.map_values(|x: Service| x@);
                let mut out = String::new();
                let mut i: usize = 0;
                while i < self.services.len()
                    invariant
                        i <= self.services@.len(),
                        l == self.services@.map_values(|x: Service| x@),
                        out@ == status_lines(l.subrange(0, i as int)),
                    decreases self.services@.len() - i,
                {
                    proof {
                        reveal_strlit(" -> ");
                        reveal_strlit("\n");
                    }
                    let s = &self.services[i];
                    out.append(s.domain.as_str());
                    out.append(" -> ");
                    let a = s.addr.text();
                    out.append(a.as_str());
                    out.append("\n");
                    let ghost next = l.subrange(0, i + 1);
                    assert(next.drop_last() =~= l.subrange(0, i as int));
                    assert(next.last() == s@);
                    i = i + 1;
                    assert(out@ =~= status_lines(next));
                }
                assert(l.subrange(0, l.len() as int) =~= l);
                out
            },
        }
    }

    /// Applies one control command. A registration builds the service's proxy first and leaves
    /// the table as it was if that fails; a status query is answered with its reply text.
    pub fn handle_command(&mut self, cmd: Command) -> (r: Result<Option<String>, CertError>)
        requires
            old(self).wf(),
        ensures
            final(self).wf(),
            final(self).tld() == old(self).tld(),
            match r {
                Ok(_) => final(self)@ == step(old(self)@, old(self).tld(), cmd@),
                Err(_) => final(self)@ == old(self)@ && (cmd@ matches CommandModel::Register {
                    proxy,
                    ..
                } && proxy == Type::Terminating),
            },
            match cmd@ {
                CommandModel::Status { name } => r matches Ok(Some(t)) && is_status_reply(
                    old(self)@,
                    old(self).tld(),
                    name,
                    t@,
                ),
                _ => r matches Ok(x) ==> x is None,
            },
            (r == Err::<Option<String>, CertError>(CertError::InvalidName)) <==> (
            cmd@ matches CommandModel::Register { name, proxy, .. } && proxy == Type::Terminating
                && !is_ascii_chars(domain_of(name, old(self).tld()))),
    {
        match cmd {
            Command::Register { name, addr, proxy } => {
                let d = self.domain_for(name.as_str());
                match Service::new(d.as_str(), addr, proxy) {
                    Ok(s) => {
                        self.insert(s);
                        Ok(None)
                    },
                    Err(e) => Err(e),
                }
            },
            Command::Deregister { name } => {
                let d = self.domain_for(name.as_str());
                self.remove(d.as_str());
                Ok(None)
            },
            Command::Status { name } => {
                let reply = match &name {
                    Some(n) => self.status(Some(n.as_str())),
                    None => self.status(None),
                };
                Ok(Some(reply))
            },
        }
    }
}

} // verus!
