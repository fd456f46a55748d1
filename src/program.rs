//! The program book: compiled definitions, the registry of algebraic types
//! and their constructors, and the designated entry point.
use vstd::prelude::*;

use crate::ir::{
    adts_view, defs_view, option_name_view, Adt, AdtV, CompileError, Construct, CtorV,
    Definition, DefinitionV, ErrorV, Statement, StatementV, Term, TermV, terms_view,
};
use crate::text::push_str;
use indexmap::IndexMap;

verus! {

/// The mathematical value of a [`Program`].
pub ghost struct ProgramV {
    pub defs: Seq<DefinitionV>,
    pub adts: Seq<AdtV>,
    pub entry: Option<Seq<char>>,
}

/// The name of the synthetic entry definition.
pub open spec fn entry_name() -> Seq<char> {
    seq!['m', 'a', 'i', 'n']
}

/// Some algebraic type is named `n`.
pub open spec fn has_type(adts: Seq<AdtV>, n: Seq<char>) -> bool {
    exists|i: int| 0 <= i < adts.len() && #[trigger] adts[i].name == n
}

/// Some constructor of some algebraic type is named `c`.
pub open spec fn has_ctor(adts: Seq<AdtV>, c: Seq<char>) -> bool {
    exists|i: int, j: int|
        0 <= i < adts.len() && 0 <= j < adts[i].ctors.len() && #[trigger] adts[i].ctors[j].name
            == c
}

/// Some definition is named `n`.
pub open spec fn has_def(defs: Seq<DefinitionV>, n: Seq<char>) -> bool {
    exists|i: int| 0 <= i < defs.len() && #[trigger] defs[i].name == n
}

/// The index of the algebraic type named `n`, where there is one.
pub open spec fn type_index(adts: Seq<AdtV>, n: Seq<char>) -> int {
    choose|i: int| 0 <= i < adts.len() && #[trigger] adts[i].name == n
}

/// The first constructor of the algebraic type named `n`: the one that a
/// call of the type's name builds.
pub open spec fn first_ctor(adts: Seq<AdtV>, n: Seq<char>) -> Seq<char> {
    adts[type_index(adts, n)].ctors[0].name
}

/// The constructor `cs[j]` collides with a registered constructor or with an
/// earlier one of `cs`.
pub open spec fn clashes(adts: Seq<AdtV>, cs: Seq<CtorV>, j: int) -> bool {
    ||| has_ctor(adts, cs[j].name)
    ||| exists|k: int| 0 <= k < j && #[trigger] cs[k].name == cs[j].name
}

/// The first constructor of `cs`, from index `j` on, that collides.
pub open spec fn first_clash(adts: Seq<AdtV>, cs: Seq<CtorV>, j: int) -> Option<int>
    decreases cs.len() - j,
{
    if j < 0 || j >= cs.len() {
        None
    } else if clashes(adts, cs, j) {
        Some(j)
    } else {
        first_clash(adts, cs, j + 1)
    }
}

/// Registering `a` after `adts`: a type name that is taken fails first, then
/// a type without constructors is refused, then a constructor name that is
/// taken, by another type or by an earlier constructor of `a`, fails with
/// the first such name; nothing is merged or overwritten.
pub open spec fn register_spec(adts: Seq<AdtV>, a: AdtV) -> Result<Seq<AdtV>, ErrorV> {
    if has_type(adts, a.name) {
        Err(ErrorV::DuplicateDefinition(a.name))
    } else if a.ctors.len() == 0 {
        Err(ErrorV::UnsupportedConstruct(Construct::EmptyType))
    } else {
        match first_clash(adts, a.ctors, 0) {
            Some(j) => Err(ErrorV::DuplicateDefinition(a.ctors[j].name)),
            None => Ok(adts.push(a)),
        }
    }
}

/// Every type has a constructor, and type names and constructor names are
/// each unique.
pub open spec fn registry_wf(adts: Seq<AdtV>) -> bool {
    &&& forall|i: int| 0 <= i < adts.len() ==> #[trigger] adts[i].ctors.len() > 0
    &&& forall|i: int, k: int|
        0 <= i < k < adts.len() ==> #[trigger] adts[i].name != #[trigger] adts[k].name
    &&& forall|i: int, j: int, k: int, l: int|
        0 <= i < adts.len() && 0 <= j < adts[i].ctors.len() && 0 <= k < adts.len() && 0 <= l
            < adts[k].ctors.len() && (i != k || j != l) ==> #[trigger] adts[i].ctors[j].name
            != #[trigger] adts[k].ctors[l].name
}

impl ProgramV {
    /// Names are unique, and the entry point, if any, is a definition.
    pub open spec fn wf(self) -> bool {
        &&& registry_wf(self.adts)
        &&& forall|i: int, k: int|
            0 <= i < k < self.defs.len() ==> #[trigger] self.defs[i].name
                != #[trigger] self.defs[k].name
        &&& match self.entry {
            Some(e) => has_def(self.defs, e),
            None => true,
        }
    }
}

/// The program after registering the algebraic type `a`.
pub open spec fn add_adt_spec(p: ProgramV, a: AdtV) -> Result<ProgramV, ErrorV> {
    match register_spec(p.adts, a) {
        Ok(adts) => Ok(ProgramV { adts, ..p }),
        Err(e) => Err(e),
    }
}

/// The program after inserting the definition `d`; a name that is taken
/// fails.
pub open spec fn add_def_spec(p: ProgramV, d: DefinitionV) -> Result<ProgramV, ErrorV> {
    if has_def(p.defs, d.name) {
        Err(ErrorV::DuplicateDefinition(d.name))
    } else {
        Ok(ProgramV { defs: p.defs.push(d), ..p })
    }
}

/// The synthetic entry definition that calls `name` with `args`.
pub open spec fn entry_def(name: Seq<char>, args: Seq<TermV>) -> DefinitionV {
    DefinitionV {
        name: entry_name(),
        params: Seq::empty(),
        body: StatementV::Return(
            TermV::Call(Box::new(TermV::Variable(name)), args),
        ),
    }
}

/// The program with an entry definition that calls `name` with `args`,
/// marked as its entry point.
pub open spec fn entry_spec(p: ProgramV, name: Seq<char>, args: Seq<TermV>) -> Result<
    ProgramV,
    ErrorV,
> {
    if !has_def(p.defs, name) {
        Err(ErrorV::UnresolvedEntryPoint(name))
    } else if has_def(p.defs, entry_name()) {
        Err(ErrorV::DuplicateDefinition(entry_name()))
    } else {
        Ok(
            ProgramV {
                defs: p.defs.push(entry_def(name, args)),
                adts: p.adts,
                entry: Some(entry_name()),
            },
        )
    }
}

#[verifier::external_type_specification]
#[verifier::external_body]
#[verifier::reject_recursive_types(K)]
#[verifier::reject_recursive_types(V)]
#[verifier::reject_recursive_types(S)]
pub struct ExIndexMap<K, V, S>(IndexMap<K, V, S>);

/// What a map from constructor names to type names holds.
pub uninterp spec fn ctor_owners(m: IndexMap<String, String>) -> Map<Seq<char>, Seq<char>>;

/// Relies on `IndexMap::new`: a new map is empty.
#[verifier::external_body]
fn owners_new() -> (r: IndexMap<String, String>)
    ensures
        forall|c: Seq<char>| !#[trigger] ctor_owners(r).contains_key(c),
{
    IndexMap::new()
}

/// Relies on `IndexMap::get`: the value stored under a key equal to `k`, or
/// none when there is no such key.
#[verifier::external_body]
fn owners_get(m: &IndexMap<String, String>, k: &String) -> (r: Option<String>)
    ensures
        match r {
            Some(v) => ctor_owners(*m).contains_key(k@) && ctor_owners(*m)[k@] == v@,
            None => !ctor_owners(*m).contains_key(k@),
        },
{
    m.get(k).cloned()
}

/// Relies on `IndexMap::insert`: afterwards `k` maps to `v`, and every other
/// key keeps its value.
#[verifier::external_body]
fn owners_insert(m: &mut IndexMap<String, String>, k: String, v: String)
    ensures
        ctor_owners(*final(m)) == ctor_owners(*old(m)).insert(k@, v@),
{
    m.insert(k, v);
}

/// A compiled program.
#[derive(Debug)]
pub struct Program {
    defs: Vec<Definition>,
    adts: Vec<Adt>,
    /// Each constructor's name, mapped to the name of the type that owns it.
    ctrs: IndexMap<String, String>,
    entry: Option<String>,
}

impl View for Program {
    type V = ProgramV;

    closed spec fn view(&self) -> ProgramV {
        ProgramV {
            defs: defs_view(self.defs@),
            adts: adts_view(self.adts@),
            entry: option_name_view(self.entry),
        }
    }
}

/// No clash in `cs` from `j` on means no constructor there collides.
proof fn lemma_no_clash(adts: Seq<AdtV>, cs: Seq<CtorV>, j: int)
    requires
        0 <= j,
        first_clash(adts, cs, j) is None,
    ensures
        forall|l: int| j <= l < cs.len() ==> !clashes(adts, cs, l),
    decreases cs.len() - j,
{
    if j < cs.len() {
        lemma_no_clash(adts, cs, j + 1);
    }
}

proof fn lemma_first_clash_range(adts: Seq<AdtV>, cs: Seq<CtorV>, j: int)
    requires
        0 <= j,
        first_clash(adts, cs, j) is Some,
    ensures
        j <= first_clash(adts, cs, j)->0 < cs.len(),
    decreases cs.len() - j,
{
    if j < cs.len() && !clashes(adts, cs, j) {
        lemma_first_clash_range(adts, cs, j + 1);
    }
}

/// A successful registration keeps the registry well formed.
pub proof fn lemma_register_wf(adts: Seq<AdtV>, a: AdtV)
    requires
        registry_wf(adts),
        register_spec(adts, a) is Ok,
    ensures
        registry_wf(register_spec(adts, a)->Ok_0),
{
    lemma_no_clash(adts, a.ctors, 0);
    let r = adts.push(a);
    let n = adts.len() as int;
    assert forall|i: int, k: int| 0 <= i < k < r.len() implies #[trigger] r[i].name
        != #[trigger] r[k].name by {
        if k == n {
            assert(adts[i].name == r[i].name);
        }
    }
    assert forall|i: int, j: int, k: int, l: int|
        0 <= i < r.len() && 0 <= j < r[i].ctors.len() && 0 <= k < r.len() && 0 <= l
            < r[k].ctors.len() && (i != k || j != l) implies #[trigger] r[i].ctors[j].name
        != #[trigger] r[k].ctors[l].name by {
        if i == n && k == n {
            if j < l {
                assert(!clashes(adts, a.ctors, l));
            } else {
                assert(!clashes(adts, a.ctors, j));
            }
        } else if i == n {
            assert(!clashes(adts, a.ctors, j));
            assert(adts[k].ctors[l] == r[k].ctors[l]);
        } else if k == n {
            assert(!clashes(adts, a.ctors, l));
            assert(adts[i].ctors[j] == r[i].ctors[j]);
        }
    }
}

impl Program {
    /// The program is well formed.
    pub open spec fn wf(&self) -> bool {
        self@.wf() && self.owners_wf()
    }

    /// The constructor map holds exactly the registered constructors, each
    /// mapped to the name of its type.
    pub closed spec fn owners_wf(&self) -> bool {
        &&& forall|c: Seq<char>| #[trigger]
            ctor_owners(self.ctrs).contains_key(c) <==> has_ctor(self@.adts, c)
        &&& forall|i: int, j: int|
            0 <= i < self@.adts.len() && 0 <= j < self@.adts[i].ctors.len() ==> ctor_owners(
                self.ctrs,
            )[#[trigger] self@.adts[i].ctors[j].name] == self@.adts[i].name
    }

    /// An empty program: no definitions, no types, no entry point.
    pub fn new() -> (r: Program)
        ensures
            r@ == (ProgramV { defs: Seq::empty(), adts: Seq::empty(), entry: None }),
            r.wf(),
    {
        let r = Program { defs: Vec::new(), adts: Vec::new(), ctrs: owners_new(), entry: None };
        assert(r@.defs =~= Seq::empty());
        assert(r@.adts =~= Seq::empty());
        r
    }

    /// The definitions, in the order of insertion.
    pub fn definitions(&self) -> (r: &Vec<Definition>)
        ensures
            defs_view(r@) == self@.defs,
    {
        &self.defs
    }

    /// The algebraic types, in the order of registration.
    pub fn adts(&self) -> (r: &Vec<Adt>)
        ensures
            adts_view(r@) == self@.adts,
    {
        &self.adts
    }

    /// The name of the entry definition, if one was synthesized.
    pub fn entry_point(&self) -> (r: &Option<String>)
        ensures
            option_name_view(*r) == self@.entry,
    {
        &self.entry
    }

    /// The index of the algebraic type named `n`.
    pub fn find_type(&self, n: &String) -> (r: Option<usize>)
        ensures
            match r {
                Some(i) => i < self@.adts.len() && self@.adts[i as int].name == n@,
                None => !has_type(self@.adts, n@),
            },
    {
        let mut i: usize = 0;
        while i < self.adts.len()
            invariant
                i <= self.adts@.len(),
                forall|k: int| 0 <= k < i ==> self@.adts[k].name != n@,
            decreases self.adts@.len() - i,
        {
            if self.adts[i].name == *n {
                return Some(i);
            }
            i = i + 1;
        }
        None
    }

    /// Some registered constructor is named `c`.
    pub fn has_ctor(&self, c: &String) -> (r: bool)
        requires
            self.wf(),
        ensures
            r == has_ctor(self@.adts, c@),
    {
        owners_get(&self.ctrs, c).is_some()
    }

    /// The name of the type that owns the constructor `c`, if one does.
    pub fn owner_of(&self, c: &String) -> (r: Option<String>)
        requires
            self.wf(),
        ensures
            match r {
                Some(t) => exists|i: int, j: int|
                    0 <= i < self@.adts.len() && 0 <= j < self@.adts[i].ctors.len()
                        && #[trigger] self@.adts[i].ctors[j].name == c@ && self@.adts[i].name == t@,
                None => !has_ctor(self@.adts, c@),
            },
    {
        owners_get(&self.ctrs, c)
    }

    /// Some definition is named `n`.
    pub fn has_definition(&self, n: &String) -> (r: bool)
        ensures
            r == has_def(self@.defs, n@),
    {
        let mut i: usize = 0;
        while i < self.defs.len()
            invariant
                i <= self.defs@.len(),
                forall|k: int| 0 <= k < i ==> #[trigger] self@.defs[k].name != n@,
            decreases self.defs@.len() - i,
        {
            if self.defs[i].name == *n {
                assert(self@.defs[i as int].name == n@);
                return true;
            }
            i = i + 1;
        }
        false
    }

    /// The index of the first constructor of `cs` that collides with a
    /// registered one or with an earlier one of `cs`.
    fn find_clash(&self, a: &Adt) -> (r: Option<usize>)
        requires
            self.wf(),
        ensures
            match first_clash(self@.adts, a@.ctors, 0) {
                Some(j) => r == Some(j as usize),
                None => r is None,
            },
    {
        let cs = &a.ctors;
        let mut j: usize = 0;
        while j < cs.len()
            invariant
                self.wf(),
                cs == a.ctors,
                j <= cs@.len(),
                first_clash(self@.adts, a@.ctors, 0) == first_clash(self@.adts, a@.ctors, j as int),
            decreases cs@.len() - j,
        {
            let mut clash = self.has_ctor(&cs[j].name);
            let mut k: usize = 0;
            while k < j
                invariant
                    cs == a.ctors,
                    j < cs@.len(),
                    k <= j,
                    clash == (has_ctor(self@.adts, a@.ctors[j as int].name) || exists|m: int|
                        0 <= m < k && #[trigger] a@.ctors[m].name == a@.ctors[j as int].name),
                decreases j - k,
            {
                if cs[k].name == cs[j].name {
                    assert(a@.ctors[k as int].name == a@.ctors[j as int].name);
                    clash = true;
                }
                k = k + 1;
            }
            if clash {
                return Some(j);
            }
            j = j + 1;
        }
        None
    }

    /// Registers the algebraic type `a`. Fails, leaving the program as it
    /// was, on a type without constructors and on a type or constructor name
    /// that is already taken.
    pub fn add_adt(&mut self, a: Adt) -> (r: Result<(), CompileError>)
        requires
            old(self).wf(),
        ensures
            final(self).wf(),
            match add_adt_spec(old(self)@, a@) {
                Ok(p) => r is Ok && final(self)@ == p,
                Err(e) => r matches Err(x) && x@ == e && final(self)@ == old(self)@,
            },
    {
        if let Some(i) = self.find_type(&a.name) {
            return Err(CompileError::DuplicateDefinition(a.name));
        }
        if a.ctors.len() == 0 {
            return Err(CompileError::UnsupportedConstruct(Construct::EmptyType));
        }
        if let Some(j) = self.find_clash(&a) {
            proof {
                lemma_first_clash_range(self@.adts, a@.ctors, 0);
            }
            return Err(CompileError::DuplicateDefinition(a.ctors[j].name.clone()));
        }
        proof {
            lemma_register_wf(self@.adts, a@);
            lemma_no_clash(self@.adts, a@.ctors, 0);
        }
        let ghost old_adts = self@.adts;
        let ghost av = a@;
        let mut k: usize = 0;
        while k < a.ctors.len()
            invariant
                self.adts == old(self).adts,
                self.defs == old(self).defs,
                self.entry == old(self).entry,
                self@.adts == old_adts,
                av == a@,
                old(self).wf(),
                k <= a.ctors@.len(),
                forall|l: int| 0 <= l < av.ctors.len() ==> !clashes(old_adts, av.ctors, l),
                forall|c: Seq<char>| #[trigger]
                    ctor_owners(self.ctrs).contains_key(c) <==> (has_ctor(old_adts, c) || exists|m: int|
                        0 <= m < k && #[trigger] av.ctors[m].name == c),
                forall|c: Seq<char>|
                    #[trigger] ctor_owners(self.ctrs).contains_key(c) && !has_ctor(old_adts, c)
                        ==> ctor_owners(self.ctrs)[c] == av.name,
                forall|i: int, j: int|
                    0 <= i < old_adts.len() && 0 <= j < old_adts[i].ctors.len() ==> ctor_owners(
                        self.ctrs,
                    )[#[trigger] old_adts[i].ctors[j].name] == old_adts[i].name,
            decreases a.ctors@.len() - k,
        {
            let ghost before = ctor_owners(self.ctrs);
            assert(av.ctors[k as int].name == a.ctors@[k as int].name@);
            assert(!clashes(old_adts, av.ctors, k as int));
            owners_insert(&mut self.ctrs, a.ctors[k].name.clone(), a.name.clone());
            proof {
                let c = av.ctors[k as int].name;
                assert forall|x: Seq<char>| #[trigger]
                    ctor_owners(self.ctrs).contains_key(x) <==> (has_ctor(old_adts, x) || exists|m: int|
                        0 <= m < k + 1 && #[trigger] av.ctors[m].name == x) by {
                    if x == c {
                        assert(av.ctors[k as int].name == x);
                    } else if exists|m: int| 0 <= m < k + 1 && #[trigger] av.ctors[m].name == x {
                        let m = choose|m: int| 0 <= m < k + 1 && #[trigger] av.ctors[m].name == x;
                        assert(m < k);
                    }
                }
                assert forall|i: int, j: int|
                    0 <= i < old_adts.len() && 0 <= j < old_adts[i].ctors.len() implies ctor_owners(
                        self.ctrs,
                    )[#[trigger] old_adts[i].ctors[j].name] == old_adts[i].name by {
                    assert(has_ctor(old_adts, old_adts[i].ctors[j].name));
                }
            }
            k = k + 1;
        }
        self.adts.push(a);
        assert(adts_view(self.adts@) =~= old_adts.push(av));
        proof {
            let na = self@.adts;
            let n = old_adts.len() as int;
            assert forall|c: Seq<char>| #[trigger]
                ctor_owners(self.ctrs).contains_key(c) <==> has_ctor(na, c) by {
                if has_ctor(na, c) {
                    let (i, j) = choose|i: int, j: int|
                        0 <= i < na.len() && 0 <= j < na[i].ctors.len() && #[trigger] na[i].ctors[j].name
                            == c;
                    if i < n {
                        assert(old_adts[i].ctors[j].name == c);
                    } else {
                        assert(av.ctors[j].name == c);
                    }
                }
                if has_ctor(old_adts, c) {
                    let (i, j) = choose|i: int, j: int|
                        0 <= i < old_adts.len() && 0 <= j < old_adts[i].ctors.len()
                            && #[trigger] old_adts[i].ctors[j].name == c;
                    assert(na[i].ctors[j].name == c);
                }
                if exists|m: int| 0 <= m < av.ctors.len() && #[trigger] av.ctors[m].name == c {
                    let m = choose|m: int| 0 <= m < av.ctors.len() && #[trigger] av.ctors[m].name == c;
                    assert(na[n].ctors[m].name == c);
                }
            }
            assert forall|i: int, j: int|
                0 <= i < na.len() && 0 <= j < na[i].ctors.len() implies ctor_owners(
                    self.ctrs,
                )[#[trigger] na[i].ctors[j].name] == na[i].name by {
                if i < n {
                    assert(old_adts[i].ctors[j].name == na[i].ctors[j].name);
                } else {
                    assert(na[i] == av);
                    let c = na[i].ctors[j].name;
                    assert(av.ctors[j].name == c);
                    assert(!clashes(old_adts, av.ctors, j));
                    assert(ctor_owners(self.ctrs).contains_key(c));
                }
            }
        }
        Ok(())
    }

    /// Inserts the definition `d`. Fails, leaving the program as it was, when
    /// a definition of that name exists.
    pub fn add_definition(&mut self, d: Definition) -> (r: Result<(), CompileError>)
        requires
            old(self).wf(),
        ensures
            final(self).wf(),
            match add_def_spec(old(self)@, d@) {
                Ok(p) => r is Ok && final(self)@ == p,
                Err(e) => r matches Err(x) && x@ == e && final(self)@ == old(self)@,
            },
    {
        if self.has_definition(&d.name) {
            return Err(CompileError::DuplicateDefinition(d.name));
        }
        self.defs.push(d);
        assert(defs_view(self.defs@) =~= defs_view(old(self).defs@).push(d@));
        proof {
            let p = self@;
            assert forall|i: int, k: int| 0 <= i < k < p.defs.len() implies #[trigger] p.defs[i].name
                != #[trigger] p.defs[k].name by {
                if k == p.defs.len() - 1 {
                    assert(old(self)@.defs[i].name == p.defs[i].name);
                }
            }
            if let Some(e) = p.entry {
                let i = choose|i: int| 0 <= i < old(self)@.defs.len() && #[trigger] old(self)@.defs[i].name == e;
                assert(p.defs[i].name == e);
            }
        }
        Ok(())
    }

    /// Inserts the entry definition `main`, whose body returns the call of
    /// `name` with `args`, and marks it as the entry point. Fails with
    /// `UnresolvedEntryPoint` when no definition is named `name`, and with
    /// `DuplicateDefinition` when one is already named `main`; the program
    /// then stays as it was.
    pub fn set_entry_point(&mut self, name: &String, args: Vec<Term>) -> (r: Result<
        (),
        CompileError,
    >)
        requires
            old(self).wf(),
        ensures
            final(self).wf(),
            match entry_spec(old(self)@, name@, terms_view(args@)) {
                Ok(p) => r is Ok && final(self)@ == p,
                Err(e) => r matches Err(x) && x@ == e && final(self)@ == old(self)@,
            },
    {
        if !self.has_definition(name) {
            return Err(CompileError::UnresolvedEntryPoint(name.clone()));
        }
        let mut main = String::new();
        push_str(&mut main, "main");
        proof {
            reveal_strlit("main");
            assert(main@ =~= entry_name());
        }
        if self.has_definition(&main) {
            return Err(CompileError::DuplicateDefinition(main));
        }
        let callee = Term::Variable(name.clone());
        assert(callee@ == TermV::Variable(name@));
        let call = Term::Call { callee: Box::new(callee), args };
        assert(call@ == TermV::Call(Box::new(TermV::Variable(name@)), terms_view(args@)));
        let body = Statement::Return(call);
        let d = Definition { name: main.clone(), params: Vec::new(), body };
        assert(d@.params =~= Seq::<Seq<char>>::empty());
        assert(d@ == entry_def(name@, terms_view(args@)));
        let r = self.add_definition(d);
        self.entry = Some(main);
        proof {
            let p = self@;
            let i = p.defs.len() - 1;
            assert(p.defs[i].name == entry_name());
        }
        r
    }
}

} // verus!
