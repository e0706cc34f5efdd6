//! Named heuristic presets: the registry that keeps them in file order and hands out the one
//! asked for, or the first.
use vstd::prelude::*;
use vstd::string::*;

use crate::domain::DomainError;
use crate::text::text_eq;

verus! {

/// The first position of `x` in `names`, or `-1`.
pub open spec fn position_of(names: Seq<Seq<char>>, x: Seq<char>) -> int
    decreases names.len(),
{
    if names.len() == 0 {
        -1
    } else {
        let p = position_of(names.drop_last(), x);
        if p >= 0 {
            p
        } else if names.last() == x {
            names.len() - 1
        } else {
            -1
        }
    }
}

/// The registry that a list of named entries builds, in order: a new name is appended, a
/// repeated name keeps its first place and takes the later preset.
pub open spec fn registry_of<P>(entries: Seq<(String, P)>) -> (Seq<Seq<char>>, Seq<P>)
    decreases entries.len(),
{
    if entries.len() == 0 {
        (Seq::<Seq<char>>::empty(), Seq::<P>::empty())
    } else {
        let (names, presets) = registry_of(entries.drop_last());
        let (n, p) = entries.last();
        let i = position_of(names, n@);
        if i >= 0 {
            (names, presets.update(i, p))
        } else {
            (names.push(n@), presets.push(p))
        }
    }
}

/// The preset registered under `name`, if any.
pub open spec fn lookup<P>(registry: (Seq<Seq<char>>, Seq<P>), name: Seq<char>) -> Option<P> {
    let i = position_of(registry.0, name);
    if i >= 0 {
        Some(registry.1[i])
    } else {
        None
    }
}

/// `names` joined by `sep`.
pub open spec fn join_names(names: Seq<Seq<char>>, sep: Seq<char>) -> Seq<char>
    decreases names.len(),
{
    if names.len() == 0 {
        Seq::<char>::empty()
    } else if names.len() == 1 {
        names[0]
    } else {
        join_names(names.drop_last(), sep) + sep + names.last()
    }
}

/// The message for a preset name that is not registered.
pub open spec fn preset_not_found_message(name: Seq<char>, names: Seq<Seq<char>>) -> Seq<char> {
    "Preset '"@ + name + "' not found. Available presets: "@ + join_names(names, ", "@)
}

/// The message when there is no preset at all.
pub open spec fn no_presets_message() -> Seq<char> {
    "presets.json is empty or invalid."@
}

proof fn lemma_position_bounds(names: Seq<Seq<char>>, x: Seq<char>)
    ensures
        -1 <= position_of(names, x) < names.len(),
        position_of(names, x) >= 0 ==> names[position_of(names, x)] == x,
        position_of(names, x) >= 0 ==> forall|j: int|
            0 <= j < position_of(names, x) ==> names[j] != x,
        position_of(names, x) < 0 ==> forall|j: int| 0 <= j < names.len() ==> names[j] != x,
    decreases names.len(),
{
    if names.len() > 0 {
        let t = names.drop_last();
        lemma_position_bounds(t, x);
        assert forall|j: int| 0 <= j < t.len() implies t[j] == names[j] by {}
    }
}

proof fn lemma_position_found(names: Seq<Seq<char>>, x: Seq<char>, i: int)
    requires
        0 <= i < names.len(),
        names[i] == x,
        forall|j: int| 0 <= j < i ==> names[j] != x,
    ensures
        position_of(names, x) == i,
{
    lemma_position_bounds(names, x);
    let p = position_of(names, x);
    if p >= 0 && p != i {
        if p < i {
            assert(names[p] != x);
        } else {
            assert(names[i] != x);
        }
    }
}

proof fn lemma_position_absent(names: Seq<Seq<char>>, x: Seq<char>)
    requires
        forall|j: int| 0 <= j < names.len() ==> names[j] != x,
    ensures
        position_of(names, x) == -1,
{
    lemma_position_bounds(names, x);
    if position_of(names, x) >= 0 {
        assert(names[position_of(names, x)] != x);
    }
}

proof fn lemma_registry_lengths<P>(entries: Seq<(String, P)>)
    ensures
        registry_of(entries).0.len() == registry_of(entries).1.len(),
        entries.len() > 0 ==> registry_of(entries).0.len() > 0,
    decreases entries.len(),
{
    if entries.len() > 0 {
        lemma_registry_lengths(entries.drop_last());
        let (names, _) = registry_of(entries.drop_last());
        lemma_position_bounds(names, entries.last().0@);
    }
}

/// Configuration manager for named presets of type `P`, kept in the order of the
/// configuration file (the first one is the default).
pub struct PresetManager<P> {
    names: Vec<String>,
    presets: Vec<P>,
}

impl<P> PresetManager<P> {
    /// Every name has its preset, and there is at least one.
    #[verifier::type_invariant]
    closed spec fn inv(&self) -> bool {
        self.names@.len() == self.presets@.len() && self.names@.len() > 0
    }

    /// The registered names and presets, in order.
    pub closed spec fn registry(&self) -> (Seq<Seq<char>>, Seq<P>) {
        (self.names@.map_values(|s: String| s@), self.presets@)
    }

    /// Builds the registry from the entries in file order; an empty list is refused.
    pub fn from_entries(entries: Vec<(String, P)>) -> (r: Result<Self, DomainError>)
        ensures
            entries@.len() == 0 ==> (r matches Err(DomainError::Message(m)) && m@
                == no_presets_message()),
            entries@.len() > 0 ==> (r matches Ok(mgr) && mgr.registry() == registry_of(entries@)),
    {
        if entries.len() == 0 {
            return Err(DomainError::Message(String::from_str("presets.json is empty or invalid.")));
        }
        let ghost all = entries@;
        let mut entries = entries;
        let mut names: Vec<String> = Vec::new();
        let mut presets: Vec<P> = Vec::new();
        let mut rest: Vec<(String, P)> = Vec::new();
        // Take the entries out in reverse, then process them in file order.
        while entries.len() > 0
            invariant
                all.len() > 0,
                entries@ + rest@.reverse() == all,
            decreases entries.len(),
        {
            let e = entries.pop().unwrap();
            let ghost before = rest@;
            rest.push(e);
            assert(rest@.reverse() =~= seq![e] + before.reverse());
            assert(entries@ + rest@.reverse() =~= all);
        }
        assert(rest@.reverse() =~= all);
        let ghost mut done: int = 0;
        assert(all.take(0) =~= Seq::<(String, P)>::empty());
        while rest.len() > 0
            invariant
                all.len() > 0,
                0 <= done <= all.len(),
                rest@.len() == all.len() - done,
                forall|j: int| 0 <= j < rest@.len() ==> #[trigger] rest@[j] == all[all.len() - 1 - j],
                (names@.map_values(|s: String| s@), presets@) == registry_of(all.take(done)),
            decreases rest.len(),
        {
            let ghost reg = registry_of(all.take(done));
            let e = rest.pop().unwrap();
            assert(e == all[done]);
            assert(all.take(done + 1).drop_last() =~= all.take(done));
            assert(all.take(done + 1).last() == e);
            let (n, p) = e;
            proof {
                lemma_position_bounds(reg.0, n@);
                lemma_registry_lengths(all.take(done));
            }
            let mut i: usize = 0;
            let mut found = false;
            while !found && i < names.len()
                invariant
                    reg.0 == names@.map_values(|s: String| s@),
                    i <= names@.len(),
                    found ==> i < names@.len() && names@[i as int]@ == n@,
                    forall|j: int| 0 <= j < i ==> names@[j]@ != n@,
                decreases names.len() - i + (if found { 0int } else { 1int }),
            {
                if text_eq(names[i].as_str(), n.as_str()) {
                    found = true;
                } else {
                    i = i + 1;
                }
            }
            if found {
                assert(reg.0[i as int] == names@[i as int]@);
                assert(position_of(reg.0, n@) == i) by {
                    assert forall|j: int| 0 <= j < i implies reg.0[j] != n@ by {
                        assert(reg.0[j] == names@[j]@);
                    }
                    lemma_position_found(reg.0, n@, i as int);
                }
                presets.set(i, p);
                assert(names@.map_values(|s: String| s@) == reg.0);
                assert(presets@ =~= reg.1.update(i as int, p));
            } else {
                assert(position_of(reg.0, n@) < 0) by {
                    assert forall|j: int| 0 <= j < reg.0.len() implies reg.0[j] != n@ by {
                        assert(reg.0[j] == names@[j]@);
                    }
                    lemma_position_absent(reg.0, n@);
                }
                names.push(n);
                presets.push(p);
                assert(names@.map_values(|s: String| s@) =~= reg.0.push(n@));
            }
            proof {
                done = done + 1;
            }
        }
        assert(all.take(done) =~= all);
        proof {
            lemma_registry_lengths(all);
        }
        Ok(PresetManager { names, presets })
    }

    /// Fetches a preset by name, or the first one without a name, with the name it is
    /// registered under.
    pub fn get_preset(&self, name: Option<&str>) -> (r: Result<(String, &P), DomainError>)
        ensures
            match name {
                Some(n) => match lookup(self.registry(), n@) {
                    Some(p) => r matches Ok((k, q)) && k@ == n@ && *q == p,
                    None => r matches Err(DomainError::Message(m)) && m@
                        == preset_not_found_message(n@, self.registry().0),
                },
                None => r matches Ok((k, q)) && k@ == self.registry().0[0] && *q
                    == self.registry().1[0],
            },
    {
        proof {
            use_type_invariant(self);
        }
        let ghost reg = self.registry();
        match name {
            None => {
                assert(reg.0[0] == self.names@[0]@);
                Ok((self.names[0].clone(), &self.presets[0]))
            },
            Some(n) => {
                proof {
                    lemma_position_bounds(reg.0, n@);
                }
                let mut i: usize = 0;
                while i < self.names.len()
                    invariant
                        reg == self.registry(),
                        name == Some(n),
                        reg.0.len() == reg.1.len(),
                        i <= self.names@.len(),
                        forall|j: int| 0 <= j < i ==> self.names@[j]@ != n@,
                    decreases self.names.len() - i,
                {
                    assert(reg.0[i as int] == self.names@[i as int]@);
                    if text_eq(self.names[i].as_str(), n) {
                        assert(position_of(reg.0, n@) == i) by {
                            assert forall|j: int| 0 <= j < i implies reg.0[j] != n@ by {
                                assert(reg.0[j] == self.names@[j]@);
                            }
                            lemma_position_found(reg.0, n@, i as int);
                        }
                        assert(lookup(reg, n@) == Some(reg.1[i as int]));
                        let k = String::from_str(n);
                        let q = &self.presets[i];
                        assert(*q == reg.1[i as int]);
                        return Ok((k, q));
                    }
                    i = i + 1;
                }
                assert(position_of(reg.0, n@) < 0) by {
                    assert forall|j: int| 0 <= j < reg.0.len() implies reg.0[j] != n@ by {
                        assert(reg.0[j] == self.names@[j]@);
                    }
                    lemma_position_absent(reg.0, n@);
                }
                let mut m = String::from_str("Preset '");
                m.append(n);
                m.append("' not found. Available presets: ");
                m.append(self.joined_names().as_str());
                Err(DomainError::Message(m))
            },
        }
    }

    /// The registered names joined by `, `.
    fn joined_names(&self) -> (r: String)
        ensures
            r@ == join_names(self.registry().0, ", "@),
    {
        let ghost ns = self.registry().0;
        let mut r = String::new();
        let mut i: usize = 0;
        assert(ns.take(0) =~= Seq::<Seq<char>>::empty());
        while i < self.names.len()
            invariant
                ns == self.registry().0,
                i <= self.names@.len(),
                r@ == join_names(ns.take(i as int), ", "@),
            decreases self.names.len() - i,
        {
            assert(ns[i as int] == self.names@[i as int]@);
            assert(ns.take(i + 1).drop_last() =~= ns.take(i as int));
            if i > 0 {
                r.append(", ");
            }
            r.append(self.names[i].as_str());
            i = i + 1;
        }
        assert(ns.take(self.names@.len() as int) =~= ns);
        r
    }

    /// The number of registered presets.
    pub fn len(&self) -> (r: usize)
        ensures
            r == self.registry().0.len(),
    {
        self.names.len()
    }
}

proof fn lemma_registry_step<P>(entries: Seq<(String, P)>)
    requires
        entries.len() > 0,
    ensures
        ({
            let a = registry_of(entries.drop_last()).0;
            let b = registry_of(entries).0;
            &&& a.len() <= b.len()
            &&& forall|i: int| 0 <= i < a.len() ==> b[i] == a[i]
            &&& b.contains(entries.last().0@)
        }),
{
    let (names, _) = registry_of(entries.drop_last());
    lemma_position_bounds(names, entries.last().0@);
    let b = registry_of(entries).0;
    if position_of(names, entries.last().0@) >= 0 {
        assert(b[position_of(names, entries.last().0@)] == entries.last().0@);
    } else {
        assert(b[names.len() as int] == entries.last().0@);
    }
}

/// Registry names are kept in the order of their first appearance: the names registered from
/// the first `k` entries are a prefix of those registered from all of them.
pub proof fn law_registry_prefix<P>(entries: Seq<(String, P)>, k: int)
    requires
        0 <= k <= entries.len(),
    ensures
        ({
            let a = registry_of(entries.take(k)).0;
            let b = registry_of(entries).0;
            &&& a.len() <= b.len()
            &&& forall|i: int| 0 <= i < a.len() ==> b[i] == a[i]
        }),
    decreases entries.len(),
{
    if k == entries.len() {
        assert(entries.take(k) =~= entries);
    } else {
        let d = entries.drop_last();
        assert(d.take(k) =~= entries.take(k));
        law_registry_prefix(d, k);
        lemma_registry_step(entries);
    }
}

/// The registry lists every entry's name, each once, and the first entry's name first (the
/// default preset is the first one of the file).
pub proof fn law_registry_names<P>(entries: Seq<(String, P)>)
    ensures
        forall|j: int| 0 <= j < entries.len() ==> registry_of(entries).0.contains(#[trigger] entries[j].0@),
        forall|i: int, j: int|
            0 <= i < j < registry_of(entries).0.len() ==> registry_of(entries).0[i]
                != registry_of(entries).0[j],
        entries.len() > 0 ==> registry_of(entries).0[0] == entries[0].0@,
    decreases entries.len(),
{
    if entries.len() > 0 {
        let d = entries.drop_last();
        law_registry_names(d);
        lemma_registry_step(entries);
        let a = registry_of(d).0;
        let b = registry_of(entries).0;
        assert forall|j: int| 0 <= j < entries.len() implies b.contains(#[trigger] entries[j].0@) by {
            if j < entries.len() - 1 {
                assert(d[j] == entries[j]);
                assert(a.contains(d[j].0@));
                let t = choose|t: int| 0 <= t < a.len() && a[t] == d[j].0@;
                assert(b[t] == a[t]);
            }
        }
        lemma_position_bounds(a, entries.last().0@);
        assert forall|i: int, j: int| 0 <= i < j < b.len() implies b[i] != b[j] by {
            if j >= a.len() {
                assert(b == a.push(entries.last().0@));
                assert(a[i] != entries.last().0@);
            }
        }
        law_registry_prefix(entries, 1);
        let e1 = entries.take(1);
        assert(e1.drop_last() =~= Seq::<(String, P)>::empty());
        assert(e1.last() == entries[0]);
        let z = registry_of(e1.drop_last());
        assert(z.0 =~= Seq::<Seq<char>>::empty());
        assert(position_of(z.0, entries[0].0@) == -1);
        assert(registry_of(e1).0 =~= seq![entries[0].0@]);
    }
}

/// Registering a preset under a name makes a lookup of that name give it back, and leaves the
/// lookup of every other name unchanged.
pub proof fn law_lookup_after_register<P>(entries: Seq<(String, P)>, name: String, preset: P, other: Seq<
    char,
>)
    ensures
        lookup(registry_of(entries.push((name, preset))), name@) == Some(preset),
        other != name@ ==> lookup(registry_of(entries.push((name, preset))), other) == lookup(
            registry_of(entries),
            other,
        ),
{
    let s = entries.push((name, preset));
    assert(s.drop_last() =~= entries);
    let reg = registry_of(entries);
    lemma_registry_lengths(entries);
    lemma_position_bounds(reg.0, name@);
    lemma_position_bounds(reg.0, other);
    let i = position_of(reg.0, name@);
    if i >= 0 {
        assert(registry_of(s) == (reg.0, reg.1.update(i, preset)));
    } else {
        let names2 = reg.0.push(name@);
        assert(registry_of(s) == (names2, reg.1.push(preset)));
        assert(names2.drop_last() =~= reg.0);
        lemma_position_bounds(names2, other);
        assert(position_of(names2, name@) == reg.0.len());
    }
}

} // verus!
