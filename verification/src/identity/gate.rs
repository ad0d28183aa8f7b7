//! Role-based module permissions: which roles may use which modules, with
//! role and module names compared in a normalized form.

use vstd::prelude::*;

use crate::text::chars_eq;
use crate::text::chars_of;
use crate::text::is_alnum_char;
use crate::text::is_ascii_alnum;
use crate::text::string_from_chars;
use crate::text::string_seq_views;
use crate::text::trim;
use crate::text::trim_chars;
use crate::text::upper_chars;
use crate::text::upper_seq;

verus! {

pub const ROLE_VALIDATOR: &'static str = "VAL";

pub const ROLE_NODE: &'static str = "NOD";

pub const ROLE_ORACLE: &'static str = "AOR";

pub const ROLE_GOVERNANCE: &'static str = "GOV";

pub const MODULE_CONSENSUS: &'static str = "consensus";

pub const MODULE_NETWORK: &'static str = "network";

pub const MODULE_ORACLE: &'static str = "oracle";

pub const MODULE_GOVERNANCE: &'static str = "governance";

/// The ASCII alphanumeric characters of `s`, in order.
pub open spec fn keep_alnum(s: Seq<char>) -> Seq<char>
    decreases s.len(),
{
    if s.len() == 0 {
        s
    } else {
        keep_alnum(s.drop_last()) + if is_ascii_alnum(s.last()) {
            seq![s.last()]
        } else {
            Seq::<char>::empty()
        }
    }
}

/// The normalized form of a role or module name: trimmed, uppercased, with
/// everything but ASCII letters and digits removed.
pub open spec fn normalized(s: Seq<char>) -> Seq<char> {
    keep_alnum(upper_seq(trim(s)))
}

/// Normalizes a role or module name.
pub fn normalize(value: &str) -> (r: String)
    ensures
        r@ == normalized(value@),
{
    let cs = chars_of(value);
    let t = trim_chars(&cs);
    let u = upper_chars(&t);
    let n = u.len();
    let mut out: Vec<char> = Vec::new();
    let mut i: usize = 0;
    while i < n
        invariant
            n == u@.len(),
            i <= n,
            out@ == keep_alnum(u@.take(i as int)),
        decreases n - i,
    {
        let c = u[i];
        proof {
            assert(u@.take(i + 1 as int).drop_last() =~= u@.take(i as int));
            assert(u@.take(i + 1 as int).last() == c);
        }
        if is_alnum_char(c) {
            out.push(c);
        }
        i += 1;
    }
    assert(u@.take(n as int) =~= u@);
    string_from_chars(&out)
}

/// The permissions the rows `roles`/`modules` describe: each role with the
/// set of its modules.
pub open spec fn perm_map(roles: Seq<Seq<char>>, modules: Seq<Seq<Seq<char>>>) -> Map<
    Seq<char>,
    Set<Seq<char>>,
> {
    Map::new(|k: Seq<char>| roles.contains(k), |k: Seq<char>| modules[roles.index_of(k)].to_set())
}

/// The permissions after granting `module` to `role`.
pub open spec fn granted(m: Map<Seq<char>, Set<Seq<char>>>, role: Seq<char>, module: Seq<char>) -> Map<
    Seq<char>,
    Set<Seq<char>>,
> {
    m.insert(
        role,
        if m.contains_key(role) {
            m[role]
        } else {
            Set::empty()
        }.insert(module),
    )
}

/// The permissions after revoking `module` from `role` (a role without
/// permissions is left as it is).
pub open spec fn revoked(m: Map<Seq<char>, Set<Seq<char>>>, role: Seq<char>, module: Seq<char>) -> Map<
    Seq<char>,
    Set<Seq<char>>,
> {
    if m.contains_key(role) {
        m.insert(role, m[role].remove(module))
    } else {
        m
    }
}

/// Whether the permissions `m` let `role` use `module`.
pub open spec fn allowed_in(m: Map<Seq<char>, Set<Seq<char>>>, role: Seq<char>, module: Seq<char>) -> bool {
    m.contains_key(role) && m[role].contains(module)
}

/// The permissions a new gate starts with.
pub open spec fn default_permissions() -> Map<Seq<char>, Set<Seq<char>>> {
    granted(
        granted(
            granted(
                granted(Map::empty(), normalized(ROLE_VALIDATOR@), normalized(MODULE_CONSENSUS@)),
                normalized(ROLE_NODE@),
                normalized(MODULE_NETWORK@),
            ),
            normalized(ROLE_ORACLE@),
            normalized(MODULE_ORACLE@),
        ),
        normalized(ROLE_GOVERNANCE@),
        normalized(MODULE_GOVERNANCE@),
    )
}

pub open spec fn distinct_seq(s: Seq<Seq<char>>) -> bool {
    forall|i: int, j: int| 0 <= i < s.len() && 0 <= j < s.len() && i != j ==> (#[trigger] s[i]) != (
    #[trigger] s[j])
}

proof fn lemma_index_of_distinct(s: Seq<Seq<char>>, i: int)
    requires
        distinct_seq(s),
        0 <= i < s.len(),
    ensures
        s.contains(s[i]),
        s.index_of(s[i]) == i,
{
    assert(s.contains(s[i]));
}

proof fn lemma_map_update(roles: Seq<Seq<char>>, modules: Seq<Seq<Seq<char>>>, i: int, m: Seq<Seq<char>>)
    requires
        distinct_seq(roles),
        roles.len() == modules.len(),
        0 <= i < roles.len(),
    ensures
        perm_map(roles, modules.update(i, m)) == perm_map(roles, modules).insert(roles[i], m.to_set()),
{
    let a = perm_map(roles, modules.update(i, m));
    let b = perm_map(roles, modules).insert(roles[i], m.to_set());
    assert forall|k: Seq<char>| a.contains_key(k) implies a[k] == b[k] by {
        let j = roles.index_of(k);
        lemma_index_of_distinct(roles, j);
        lemma_index_of_distinct(roles, i);
    }
    assert(a =~= b);
}

proof fn lemma_map_push(roles: Seq<Seq<char>>, modules: Seq<Seq<Seq<char>>>, k: Seq<char>, m: Seq<Seq<char>>)
    requires
        distinct_seq(roles),
        roles.len() == modules.len(),
        !roles.contains(k),
    ensures
        distinct_seq(roles.push(k)),
        perm_map(roles.push(k), modules.push(m)) == perm_map(roles, modules).insert(k, m.to_set()),
{
    let rs = roles.push(k);
    assert forall|i: int, j: int| 0 <= i < rs.len() && 0 <= j < rs.len() && i != j implies (
    #[trigger] rs[i]) != (#[trigger] rs[j]) by {
        if i < roles.len() && j < roles.len() {
            assert(rs[i] == roles[i] && rs[j] == roles[j]);
        } else if i < roles.len() {
            assert(rs[i] == roles[i]);
        } else if j < roles.len() {
            assert(rs[j] == roles[j]);
        }
    }
    let a = perm_map(rs, modules.push(m));
    let b = perm_map(roles, modules).insert(k, m.to_set());
    assert forall|x: Seq<char>| a.contains_key(x) implies a[x] == b[x] by {
        let j = rs.index_of(x);
        lemma_index_of_distinct(rs, j);
        if j < roles.len() {
            assert(roles[j] == x);
            lemma_index_of_distinct(roles, j);
        }
    }
    assert forall|x: Seq<char>| b.contains_key(x) implies a.contains_key(x) by {
        if x != k {
            let j = choose|j: int| 0 <= j < roles.len() && roles[j] == x;
            assert(rs[j] == x);
        } else {
            assert(rs[roles.len() as int] == k);
        }
    }
    assert(a =~= b);
}

proof fn lemma_map_remove(roles: Seq<Seq<char>>, modules: Seq<Seq<Seq<char>>>, i: int)
    requires
        distinct_seq(roles),
        roles.len() == modules.len(),
        0 <= i < roles.len(),
    ensures
        distinct_seq(roles.remove(i)),
        perm_map(roles.remove(i), modules.remove(i)) == perm_map(roles, modules).remove(roles[i]),
{
    let rs = roles.remove(i);
    let ms = modules.remove(i);
    assert forall|a: int, b: int| 0 <= a < rs.len() && 0 <= b < rs.len() && a != b implies (
    #[trigger] rs[a]) != (#[trigger] rs[b]) by {
        let a0 = if a < i { a } else { a + 1 };
        let b0 = if b < i { b } else { b + 1 };
        assert(rs[a] == roles[a0] && rs[b] == roles[b0]);
    }
    let x = perm_map(rs, ms);
    let y = perm_map(roles, modules).remove(roles[i]);
    assert forall|k: Seq<char>| x.contains_key(k) <==> y.contains_key(k) by {
        if rs.contains(k) {
            let j = choose|j: int| 0 <= j < rs.len() && rs[j] == k;
            let j0 = if j < i { j } else { j + 1 };
            assert(roles[j0] == k);
        }
        if y.contains_key(k) {
            let j = choose|j: int| 0 <= j < roles.len() && roles[j] == k;
            assert(j != i);
            if j < i {
                assert(rs[j] == k);
            } else {
                assert(rs[j - 1] == k);
            }
        }
    }
    assert forall|k: Seq<char>| x.contains_key(k) implies x[k] == y[k] by {
        let j = rs.index_of(k);
        lemma_index_of_distinct(rs, j);
        let j0 = if j < i { j } else { j + 1 };
        assert(roles[j0] == k);
        assert(ms[j] == modules[j0]);
        lemma_index_of_distinct(roles, j0);
    }
    assert(x =~= y);
}

/// Role-based module permissions.
#[derive(Debug, Clone)]
pub struct Gate {
    roles: Vec<String>,
    modules: Vec<Vec<String>>,
}

impl Gate {
    /// The roles, in the order they were added.
    pub closed spec fn role_seq(&self) -> Seq<Seq<char>> {
        string_seq_views(self.roles@)
    }

    /// The modules of each role, in the same order.
    pub closed spec fn module_seq(&self) -> Seq<Seq<Seq<char>>> {
        self.modules@.map_values(|v: Vec<String>| string_seq_views(v@))
    }

    /// Roles are distinct, and so are the modules of each role.
    pub open spec fn wf(&self) -> bool {
        &&& self.role_seq().len() == self.module_seq().len()
        &&& distinct_seq(self.role_seq())
        &&& forall|i: int| 0 <= i < self.module_seq().len() ==> distinct_seq(#[trigger] self.module_seq()[i])
    }

    /// The permissions: each role with the set of its modules.
    pub open spec fn permissions(&self) -> Map<Seq<char>, Set<Seq<char>>> {
        perm_map(self.role_seq(), self.module_seq())
    }

    /// Position of a normalized role.
    fn position(&self, role: &[char]) -> (r: Option<usize>)
        requires
            self.wf(),
        ensures
            match r {
                Some(i) => i < self.role_seq().len() && self.role_seq()[i as int] == role@,
                None => !self.role_seq().contains(role@),
            },
    {
        let n = self.roles.len();
        let mut i: usize = 0;
        while i < n
            invariant
                n == self.role_seq().len(),
                i <= n,
                forall|j: int| 0 <= j < i ==> self.role_seq()[j] != role@,
            decreases n - i,
        {
            let c = chars_of(self.roles[i].as_str());
            assert(c@ == self.role_seq()[i as int]);
            if chars_eq(&c, role) {
                return Some(i);
            }
            i += 1;
        }
        None
    }

    /// Position of a module in a list of modules.
    fn module_position(list: &Vec<String>, module: &[char]) -> (r: Option<usize>)
        ensures
            match r {
                Some(i) => i < list@.len() && list@[i as int]@ == module@,
                None => !string_seq_views(list@).contains(module@),
            },
    {
        let n = list.len();
        let mut i: usize = 0;
        while i < n
            invariant
                n == list@.len(),
                i <= n,
                forall|j: int| 0 <= j < i ==> list@[j]@ != module@,
            decreases n - i,
        {
            let c = chars_of(list[i].as_str());
            if chars_eq(&c, module) {
                return Some(i);
            }
            i += 1;
        }
        proof {
            if string_seq_views(list@).contains(module@) {
                let j = choose|j: int| 0 <= j < n && string_seq_views(list@)[j] == module@;
                assert(list@[j]@ == module@);
            }
        }
        None
    }

    /// An empty gate.
    fn empty() -> (r: Self)
        ensures
            r.wf(),
            r.permissions() == Map::<Seq<char>, Set<Seq<char>>>::empty(),
    {
        let r = Gate { roles: Vec::new(), modules: Vec::new() };
        assert(r.permissions() =~= Map::<Seq<char>, Set<Seq<char>>>::empty());
        r
    }

    /// A gate with the default permissions: validators use consensus, nodes
    /// the network, oracles the oracle module and governance the governance
    /// module.
    pub fn new() -> (r: Self)
        ensures
            r.wf(),
            r.permissions() == default_permissions(),
    {
        let mut g = Gate::empty();
        g.grant(ROLE_VALIDATOR, MODULE_CONSENSUS);
        g.grant(ROLE_NODE, MODULE_NETWORK);
        g.grant(ROLE_ORACLE, MODULE_ORACLE);
        g.grant(ROLE_GOVERNANCE, MODULE_GOVERNANCE);
        g
    }

    /// Whether `role` may use `module` (both normalized).
    pub fn allow(&self, role: &str, module: &str) -> (r: bool)
        requires
            self.wf(),
        ensures
            r == allowed_in(self.permissions(), normalized(role@), normalized(module@)),
    {
        let nr = chars_of(normalize(role).as_str());
        let nm = chars_of(normalize(module).as_str());
        match self.position(&nr) {
            None => false,
            Some(i) => {
                proof {
                    lemma_index_of_distinct(self.role_seq(), i as int);
                    assert(self.module_seq()[i as int] == string_seq_views(self.modules@[i as int]@));
                }
                let found = Gate::module_position(&self.modules[i], &nm);
                proof {
                    if let Some(j) = found {
                        assert(string_seq_views(self.modules@[i as int]@)[j as int] == nm@);
                    }
                }
                found.is_some()
            },
        }
    }

    /// Grants `module` to `role` (both normalized), adding the role if new.
    pub fn grant(&mut self, role: &str, module: &str)
        requires
            old(self).wf(),
        ensures
            final(self).wf(),
            final(self).permissions() == granted(old(self).permissions(), normalized(role@), normalized(module@)),
    {
        let nr_s = normalize(role);
        let nm_s = normalize(module);
        let nr = chars_of(nr_s.as_str());
        let nm = chars_of(nm_s.as_str());
        let ghost rs = self.role_seq();
        let ghost ms = self.module_seq();
        match self.position(&nr) {
            Some(i) => {
                let mut list = copy_strings(&self.modules[i]);
                let ghost lv = string_seq_views(list@);
                assert(lv == ms[i as int]);
                let found = Gate::module_position(&list, &nm);
                if found.is_none() {
                    list.push(nm_s);
                }
                let ghost nl = string_seq_views(list@);
                proof {
                    if found.is_none() {
                        assert(nl =~= lv.push(nm@));
                        lv.lemma_push_to_set_commute(nm@);
                        assert forall|a: int, b: int| 0 <= a < nl.len() && 0 <= b < nl.len() && a != b implies (
                        #[trigger] nl[a]) != (#[trigger] nl[b]) by {
                            if a < lv.len() && b < lv.len() {
                                assert(nl[a] == lv[a] && nl[b] == lv[b]);
                            } else if a < lv.len() {
                                assert(nl[a] == lv[a]);
                                assert(lv.contains(lv[a]));
                            } else if b < lv.len() {
                                assert(nl[b] == lv[b]);
                                assert(lv.contains(lv[b]));
                            }
                        }
                    } else {
                        assert(nl == lv);
                        let j = found.unwrap();
                        assert(lv[j as int] == nm@);
                        assert(lv.to_set().insert(nm@) =~= lv.to_set());
                    }
                    lemma_index_of_distinct(rs, i as int);
                    lemma_map_update(rs, ms, i as int, nl);
                }
                self.modules.set(i, list);
                proof {
                    assert(self.module_seq() =~= ms.update(i as int, nl));
                    assert(self.role_seq() == rs);
                }
            },
            None => {
                let mut list: Vec<String> = Vec::new();
                list.push(nm_s);
                let ghost nl = string_seq_views(list@);
                proof {
                    assert(nl =~= seq![nm@]);
                    assert forall|x: Seq<char>| nl.to_set().contains(x) <==> Set::<Seq<char>>::empty().insert(nm@).contains(x) by {
                        if x == nm@ {
                            assert(nl[0] == x);
                        }
                    }
                    assert(nl.to_set() =~= Set::<Seq<char>>::empty().insert(nm@));
                    lemma_map_push(rs, ms, nr@, nl);
                }
                self.roles.push(nr_s);
                self.modules.push(list);
                proof {
                    assert(self.role_seq() =~= rs.push(nr@));
                    assert(self.module_seq() =~= ms.push(nl));
                    assert forall|k: int| 0 <= k < self.module_seq().len() implies distinct_seq(
                        #[trigger] self.module_seq()[k],
                    ) by {
                        if k < ms.len() {
                            assert(self.module_seq()[k] == ms[k]);
                        }
                    }
                }
            },
        }
    }

    /// Revokes `module` from `role` (both normalized); a role without
    /// permissions is left as it is, and the role stays listed.
    pub fn revoke(&mut self, role: &str, module: &str)
        requires
            old(self).wf(),
        ensures
            final(self).wf(),
            final(self).permissions() == revoked(old(self).permissions(), normalized(role@), normalized(module@)),
    {
        let nr = chars_of(normalize(role).as_str());
        let nm = chars_of(normalize(module).as_str());
        let ghost rs = self.role_seq();
        let ghost ms = self.module_seq();
        match self.position(&nr) {
            None => {},
            Some(i) => {
                let mut list = copy_strings(&self.modules[i]);
                let ghost lv = string_seq_views(list@);
                assert(lv == ms[i as int]);
                let found = Gate::module_position(&list, &nm);
                let ghost nl;
                match found {
                    Some(j) => {
                        proof {
                            assert(lv[j as int] == nm@);
                            assert(distinct_seq(self.module_seq()[i as int]));
                        }
                        list.remove(j);
                        proof {
                            nl = string_seq_views(list@);
                            assert(nl =~= lv.remove(j as int));
                            assert forall|a: int, b: int| 0 <= a < nl.len() && 0 <= b < nl.len() && a != b implies (
                            #[trigger] nl[a]) != (#[trigger] nl[b]) by {
                                let a0 = if a < j { a } else { a + 1 };
                                let b0 = if b < j { b } else { b + 1 };
                                assert(nl[a] == lv[a0] && nl[b] == lv[b0]);
                            }
                            assert forall|x: Seq<char>| nl.to_set().contains(x) <==> lv.to_set().remove(nm@).contains(x) by {
                                if nl.contains(x) {
                                    let a = choose|a: int| 0 <= a < nl.len() && nl[a] == x;
                                    let a0 = if a < j { a } else { a + 1 };
                                    assert(lv[a0] == x);
                                    assert(a0 != j);
                                    assert(lv[a0] != lv[j as int]);
                                    assert(lv.contains(x));
                                }
                                if lv.contains(x) && x != nm@ {
                                    let a0 = choose|a0: int| 0 <= a0 < lv.len() && lv[a0] == x;
                                    assert(a0 != j);
                                    if a0 < j {
                                        assert(nl[a0] == x);
                                    } else {
                                        assert(nl[a0 - 1] == x);
                                    }
                                }
                            }
                            assert(nl.to_set() =~= lv.to_set().remove(nm@));
                        }
                    },
                    None => {
                        proof {
                            nl = lv;
                            assert(lv.to_set().remove(nm@) =~= lv.to_set());
                        }
                    },
                }
                proof {
                    lemma_index_of_distinct(rs, i as int);
                    lemma_map_update(rs, ms, i as int, nl);
                }
                self.modules.set(i, list);
                proof {
                    assert(self.module_seq() =~= ms.update(i as int, nl));
                }
            },
        }
    }

    /// The modules of a role (normalized), each once; none for an unknown
    /// role.
    pub fn modules_for_role(&self, role: &str) -> (r: Vec<String>)
        requires
            self.wf(),
        ensures
            distinct_seq(string_seq_views(r@)),
            string_seq_views(r@).to_set() == if self.permissions().contains_key(normalized(role@)) {
                self.permissions()[normalized(role@)]
            } else {
                Set::empty()
            },
    {
        let nr = chars_of(normalize(role).as_str());
        match self.position(&nr) {
            None => {
                let r: Vec<String> = Vec::new();
                assert(string_seq_views(r@).to_set() =~= Set::<Seq<char>>::empty());
                r
            },
            Some(i) => {
                proof {
                    lemma_index_of_distinct(self.role_seq(), i as int);
                }
                let r = copy_strings(&self.modules[i]);
                assert(string_seq_views(r@) == self.module_seq()[i as int]);
                r
            },
        }
    }

    /// The roles, each once.
    pub fn roles(&self) -> (r: Vec<String>)
        requires
            self.wf(),
        ensures
            distinct_seq(string_seq_views(r@)),
            string_seq_views(r@).to_set() == self.permissions().dom(),
    {
        let r = copy_strings(&self.roles);
        assert(string_seq_views(r@).to_set() =~= self.permissions().dom());
        r
    }

    /// Whether the role (normalized) has an entry.
    pub fn has_role(&self, role: &str) -> (r: bool)
        requires
            self.wf(),
        ensures
            r == self.permissions().contains_key(normalized(role@)),
    {
        let nr = chars_of(normalize(role).as_str());
        self.position(&nr).is_some()
    }

    /// Removes a role (normalized) and all its permissions.
    pub fn clear_role(&mut self, role: &str)
        requires
            old(self).wf(),
        ensures
            final(self).wf(),
            final(self).permissions() == old(self).permissions().remove(normalized(role@)),
    {
        let nr = chars_of(normalize(role).as_str());
        let ghost rs = self.role_seq();
        let ghost ms = self.module_seq();
        match self.position(&nr) {
            None => {
                assert(self.permissions() =~= self.permissions().remove(nr@));
            },
            Some(i) => {
                proof {
                    lemma_map_remove(rs, ms, i as int);
                }
                self.roles.remove(i);
                self.modules.remove(i);
                proof {
                    assert(self.role_seq() =~= rs.remove(i as int));
                    assert(self.module_seq() =~= ms.remove(i as int));
                    assert forall|k: int| 0 <= k < self.module_seq().len() implies distinct_seq(
                        #[trigger] self.module_seq()[k],
                    ) by {
                        let k0 = if k < i { k } else { k + 1 };
                        assert(self.module_seq()[k] == ms[k0]);
                    }
                }
            },
        }
    }

    /// Number of roles with an entry.
    pub fn role_count(&self) -> (r: usize)
        requires
            self.wf(),
        ensures
            r == self.permissions().dom().len(),
    {
        proof {
            let rs = self.role_seq();
            assert(rs.no_duplicates()) by {
                assert forall|i: int, j: int| 0 <= i < rs.len() && 0 <= j < rs.len() && i != j implies rs[i]
                    != rs[j] by {
                    assert(rs[i] != rs[j]);
                }
            }
            rs.unique_seq_to_set();
            assert(self.permissions().dom() =~= rs.to_set());
        }
        self.roles.len()
    }
}

impl Default for Gate {
    fn default() -> (r: Self)
        ensures
            r.wf(),
            r.permissions() == default_permissions(),
    {
        Gate::new()
    }
}

/// A copy of a list of strings.
fn copy_strings(v: &Vec<String>) -> (r: Vec<String>)
    ensures
        r@ == v@,
{
    let n = v.len();
    let mut out: Vec<String> = Vec::new();
    let mut i: usize = 0;
    while i < n
        invariant
            n == v@.len(),
            i <= n,
            out@ == v@.take(i as int),
        decreases n - i,
    {
        out.push(v[i].clone());
        i += 1;
        assert(out@ =~= v@.take(i as int));
    }
    assert(out@ =~= v@);
    out
}

/// After a grant the role may use the module; after a revoke it may not;
/// other roles are unaffected by either.
pub proof fn law_grant_revoke(m: Map<Seq<char>, Set<Seq<char>>>, role: Seq<char>, module: Seq<char>, other: Seq<char>)
    ensures
        granted(m, role, module).contains_key(role),
        granted(m, role, module)[role].contains(module),
        !(revoked(m, role, module).contains_key(role) && revoked(m, role, module)[role].contains(module)),
        other != role ==> granted(m, role, module).contains_key(other) == m.contains_key(other),
        other != role && m.contains_key(other) ==> granted(m, role, module)[other] == m[other]
            && revoked(m, role, module)[other] == m[other],
{
}

/// Revoking `module` from `role` withdraws exactly that permission: the
/// pair is refused afterwards, and every other role and module pair keeps
/// the answer it had.
pub proof fn law_revoke_withdraws_only_that_permission(
    m: Map<Seq<char>, Set<Seq<char>>>,
    role: Seq<char>,
    module: Seq<char>,
    other_role: Seq<char>,
    other_module: Seq<char>,
)
    ensures
        !allowed_in(revoked(m, role, module), role, module),
        !(other_role == role && other_module == module) ==> allowed_in(
            revoked(m, role, module),
            other_role,
            other_module,
        ) == allowed_in(m, other_role, other_module),
{
}

/// Granting `module` to `role` adds exactly that permission: afterwards a
/// pair is allowed when it was before or when it is the granted one.
pub proof fn law_grant_adds_only_that_permission(
    m: Map<Seq<char>, Set<Seq<char>>>,
    role: Seq<char>,
    module: Seq<char>,
    other_role: Seq<char>,
    other_module: Seq<char>,
)
    ensures
        allowed_in(granted(m, role, module), other_role, other_module) == (allowed_in(
            m,
            other_role,
            other_module,
        ) || (other_role == role && other_module == module)),
{
}

} // verus!
