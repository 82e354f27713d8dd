//! The chain of lexical scopes.
//!
//! A scope owns a name-to-variable mapping (keys unique) and sits over
//! an optional parent; the chain is held root-first, the current scope
//! last.  Its model is a sequence of maps, and the three operations are
//! specified over that model: `declare` writes the current scope
//! unconditionally, `assign` walks outward and replaces a value under
//! the binding's mutability and type rules, `evaluate` walks outward and
//! reads.

use vstd::prelude::*;

use crate::runtime::error::{RuntimeError, RuntimeErrorV};
use crate::runtime::value::{ValueV, same_tag};
use crate::runtime::variable::{RuntimeVariable, VarV};
use vstd::string::StringExecFns;

verus! {

/// One binding of a scope.
#[derive(Debug)]
struct Binding {
    name: String,
    var: RuntimeVariable,
}

/// The model of a scope chain: one name-to-variable map per scope,
/// root first.
pub type EnvV = Seq<Map<Seq<char>, VarV>>;

spec fn frame_map(bs: Seq<Binding>) -> Map<Seq<char>, VarV>
    decreases bs.len(),
{
    if bs.len() == 0 {
        Map::empty()
    } else {
        frame_map(bs.drop_last()).insert(bs.last().name@, bs.last().var@)
    }
}

spec fn names_unique(bs: Seq<Binding>) -> bool {
    forall|i: int, j: int| 0 <= i < j < bs.len() ==> bs[i].name@ != bs[j].name@
}

/// Resolution of a name: the innermost scope that binds it wins; a name
/// bound nowhere is not declared.
pub open spec fn env_lookup(env: EnvV, name: Seq<char>) -> Result<VarV, RuntimeErrorV>
    decreases env.len(),
{
    if env.len() == 0 {
        Err(RuntimeErrorV::VariableNotDeclared(name))
    } else if env.last().contains_key(name) {
        Ok(env.last()[name])
    } else {
        env_lookup(env.drop_last(), name)
    }
}

/// Declaration: writes the binding into the current scope
/// unconditionally, shadowing any same-named binding there.
pub open spec fn env_declare(env: EnvV, name: Seq<char>, var: VarV) -> EnvV {
    env.update(env.len() - 1, env.last().insert(name, var))
}

/// Assignment: finds the innermost scope binding the name; fails if the
/// name is bound nowhere, if the binding is not mutable, or if the new
/// value's tag differs from the bound one's; otherwise replaces the
/// value, keeping the binding mutable, and yields the stored variable.
pub open spec fn env_assign(env: EnvV, name: Seq<char>, value: ValueV) -> Result<
    (EnvV, VarV),
    RuntimeErrorV,
>
    decreases env.len(),
{
    if env.len() == 0 {
        Err(RuntimeErrorV::VariableNotDeclared(name))
    } else if env.last().contains_key(name) {
        let existing = env.last()[name];
        if !existing.mutable {
            Err(RuntimeErrorV::CannotMutateVariable(name))
        } else if !same_tag(existing.value, value) {
            Err(RuntimeErrorV::VariableTypeDoesntMatch(name))
        } else {
            let nv = VarV { value, mutable: true };
            Ok((env.update(env.len() - 1, env.last().insert(name, nv)), nv))
        }
    } else {
        match env_assign(env.drop_last(), name, value) {
            Ok((e2, v)) => Ok((e2.push(env.last()), v)),
            Err(e) => Err(e),
        }
    }
}

proof fn lemma_frame_absent(bs: Seq<Binding>, name: Seq<char>)
    requires
        forall|i: int| 0 <= i < bs.len() ==> bs[i].name@ != name,
    ensures
        !frame_map(bs).contains_key(name),
    decreases bs.len(),
{
    if bs.len() > 0 {
        assert(forall|i: int| 0 <= i < bs.len() - 1 ==> bs.drop_last()[i] == bs[i]);
        lemma_frame_absent(bs.drop_last(), name);
    }
}

proof fn lemma_frame_found(bs: Seq<Binding>, i: int)
    requires
        names_unique(bs),
        0 <= i < bs.len(),
    ensures
        frame_map(bs).contains_key(bs[i].name@),
        frame_map(bs)[bs[i].name@] == bs[i].var@,
    decreases bs.len(),
{
    if i < bs.len() - 1 {
        assert(forall|k: int| 0 <= k < bs.len() - 1 ==> bs.drop_last()[k] == bs[k]);
        lemma_frame_found(bs.drop_last(), i);
        assert(bs.last().name@ != bs[i].name@);
    }
}

proof fn lemma_frame_update(bs: Seq<Binding>, i: int, b: Binding)
    requires
        names_unique(bs),
        0 <= i < bs.len(),
        bs[i].name@ == b.name@,
    ensures
        frame_map(bs.update(i, b)) == frame_map(bs).insert(b.name@, b.var@),
        names_unique(bs.update(i, b)),
    decreases bs.len(),
{
    let u = bs.update(i, b);
    assert(forall|k: int|
        0 <= k < bs.len() && k != i ==> u[k] == bs[k]);
    if i == bs.len() - 1 {
        assert(u.drop_last() =~= bs.drop_last());
        assert(u.last() == b);
        assert(frame_map(u) =~= frame_map(bs).insert(b.name@, b.var@));
    } else {
        assert(forall|k: int| 0 <= k < bs.len() - 1 ==> bs.drop_last()[k] == bs[k]);
        lemma_frame_update(bs.drop_last(), i, b);
        assert(u.drop_last() =~= bs.drop_last().update(i, b));
        assert(u.last() == bs.last());
        assert(bs.last().name@ != b.name@);
        assert(frame_map(u) =~= frame_map(bs).insert(b.name@, b.var@));
    }
}

proof fn lemma_frame_push(bs: Seq<Binding>, b: Binding)
    requires
        names_unique(bs),
        forall|i: int| 0 <= i < bs.len() ==> bs[i].name@ != b.name@,
    ensures
        frame_map(bs.push(b)) == frame_map(bs).insert(b.name@, b.var@),
        names_unique(bs.push(b)),
{
    assert(bs.push(b).drop_last() =~= bs);
    assert(bs.push(b).last() == b);
}

/// The scope chain.  The global scope is created by `global`; a nested
/// scope extends a chain with `new`.
#[derive(Debug)]
pub struct Env {
    frames: Vec<Vec<Binding>>,
}

impl View for Env {
    type V = EnvV;

    closed spec fn view(&self) -> EnvV {
        Seq::new(self.frames@.len() as nat, |i: int| frame_map(self.frames@[i]@))
    }
}

/// Find the index of the binding of `key` in one scope, if any.
fn find_binding(frame: &Vec<Binding>, key: &String) -> (r: Option<usize>)
    ensures
        match r {
            Some(i) => i < frame@.len() && frame@[i as int].name@ == key@,
            None => forall|i: int| 0 <= i < frame@.len() ==> frame@[i].name@ != key@,
        },
{
    let mut i: usize = 0;
    while i < frame.len()
        invariant
            i <= frame@.len(),
            forall|k: int| 0 <= k < i ==> frame@[k].name@ != key@,
        decreases frame@.len() - i,
    {
        if frame[i].name == *key {
            return Some(i);
        }
        i += 1;
    }
    None
}

impl Env {
    /// A well-formed chain: at least the global scope, and unique names
    /// within each scope.
    pub closed spec fn wf(&self) -> bool {
        self.frames@.len() > 0 && (forall|k: int|
            0 <= k < self.frames@.len() ==> names_unique(#[trigger] self.frames@[k]@))
    }

    /// The global scope, root of every chain.
    pub fn global() -> (r: Self)
        ensures
            r.wf(),
            r@ =~= seq![Map::<Seq<char>, VarV>::empty()],
    {
        let mut frames: Vec<Vec<Binding>> = Vec::new();
        frames.push(Vec::new());
        Env { frames }
    }

    /// A fresh scope whose parent is the given chain.
    pub fn new(parent: Self) -> (r: Self)
        requires
            parent.wf(),
        ensures
            r.wf(),
            r@ =~= parent@.push(Map::<Seq<char>, VarV>::empty()),
    {
        let mut env = parent;
        env.frames.push(Vec::new());
        env
    }

    /// Insert or overwrite a binding in the current scope; always
    /// succeeds, and hands the declared variable back.
    #[verifier::loop_isolation(false)]
    pub fn declare(&mut self, ident: &str, value: RuntimeVariable) -> (r: RuntimeVariable)
        requires
            old(self).wf(),
        ensures
            final(self).wf(),
            final(self)@ == env_declare(old(self)@, ident@, value@),
            r@ == value@,
    {
        let key = String::from_str(ident);
        let ret = value.duplicate();
        let j = self.frames.len() - 1;
        let ghost oldenv = self@;
        match find_binding(&self.frames[j], &key) {
            Some(i) => {
                let b = Binding { name: key, var: value };
                proof {
                    lemma_frame_update(self.frames@[j as int]@, i as int, b);
                }
                let frame = &mut self.frames[j];
                frame[i] = b;
                proof {
                    assert(self@ =~= env_declare(oldenv, ident@, ret@));
                }
            },
            None => {
                let b = Binding { name: key, var: value };
                proof {
                    lemma_frame_push(self.frames@[j as int]@, b);
                }
                let frame = &mut self.frames[j];
                frame.push(b);
                proof {
                    assert(self@ =~= env_declare(oldenv, ident@, ret@));
                }
            },
        }
        ret
    }

    /// Replace the value of an existing binding, walking outward from
    /// the current scope; fails as `env_assign` says.
    #[verifier::loop_isolation(false)]
    pub fn assign(&mut self, ident: &str, value: RuntimeVariable) -> (r: Result<
        RuntimeVariable,
        RuntimeError,
    >)
        requires
            old(self).wf(),
        ensures
            final(self).wf(),
            match env_assign(old(self)@, ident@, value@.value) {
                Ok(p) => final(self)@ == p.0 && (r matches Ok(rv) && rv@ == p.1),
                Err(e) => final(self)@ == old(self)@ && (r matches Err(re) && re@ == e),
            },
    {
        let key = String::from_str(ident);
        let ghost env0 = self@;
        let ghost name = ident@;
        let ghost v = value@.value;
        let mut j = self.frames.len();
        proof {
            assert(env0.subrange(0, env0.len() as int) =~= env0);
            match env_assign(env0, name, v) {
                Ok(p) => {
                    assert(p.0 + env0.skip(env0.len() as int) =~= p.0);
                },
                Err(_) => {},
            }
        }
        while j > 0
            invariant
                j <= self.frames@.len(),
                self == old(self),
                match env_assign(env0.subrange(0, j as int), name, v) {
                    Ok(p) => env_assign(env0, name, v) matches Ok(q) && q.0 == p.0 + env0.skip(
                        j as int,
                    ) && q.1 == p.1,
                    Err(e) => env_assign(env0, name, v) == Err::<(EnvV, VarV), RuntimeErrorV>(e),
                },
            decreases j,
        {
            j -= 1;
            let ghost prefix = env0.subrange(0, j + 1);
            proof {
                assert(prefix.drop_last() =~= env0.subrange(0, j as int));
                assert(prefix.last() == env0[j as int]);
            }
            match find_binding(&self.frames[j], &key) {
                Some(i) => {
                    proof {
                        lemma_frame_found(self.frames@[j as int]@, i as int);
                    }
                    let existing = &self.frames[j][i].var;
                    if !existing.is_mutable() {
                        return Err(RuntimeError::CannotMutateVariable(key));
                    }
                    if !existing.same_type(&value) {
                        return Err(RuntimeError::VariableTypeDoesntMatch(key));
                    }
                    let nv = value.with_mutable(true);
                    let ret = nv.duplicate();
                    let b = Binding { name: key, var: nv };
                    proof {
                        lemma_frame_update(self.frames@[j as int]@, i as int, b);
                    }
                    let frame = &mut self.frames[j];
                    frame[i] = b;
                    proof {
                        let upd = env0.update(j as int, env0[j as int].insert(name, ret@));
                        assert(self@ =~= upd);
                        assert(prefix.update(j as int, prefix.last().insert(name, ret@))
                            + env0.skip(j + 1) =~= upd);
                    }
                    return Ok(ret);
                },
                None => {
                    proof {
                        lemma_frame_absent(self.frames@[j as int]@, name);
                        assert(!env0[j as int].contains_key(name));
                    }
                },
            }
        }
        proof {
            assert(env0.subrange(0, 0) =~= Seq::<Map<Seq<char>, VarV>>::empty());
        }
        Err(RuntimeError::VariableNotDeclared(key))
    }

    /// A diagnostic dump of the chain: each scope's bindings, root
    /// first, in insertion order.  The text is for human eyes only and
    /// is not specified further.
    pub fn to_display_string(&self) -> String {
        let mut out = String::new();
        out.append("Env {\n");
        let mut j: usize = 0;
        while j < self.frames.len()
            decreases self.frames@.len() - j,
        {
            out.append("scope {\n");
            let frame = &self.frames[j];
            let mut i: usize = 0;
            while i < frame.len()
                decreases frame@.len() - i,
            {
                out.append(frame[i].name.as_str());
                out.append(": ");
                let vt = frame[i].var.to_display_string();
                out.append(vt.as_str());
                out.append(",\n");
                i += 1;
            }
            out.append("}\n");
            j += 1;
        }
        out.append("}");
        out
    }

    /// Read the value of a binding, walking outward from the current
    /// scope; fails if the name is bound nowhere.
    #[verifier::loop_isolation(false)]
    pub fn evaluate(&self, ident: &str) -> (r: Result<RuntimeVariable, RuntimeError>)
        requires
            self.wf(),
        ensures
            match r {
                Ok(rv) => env_lookup(self@, ident@) == Ok::<VarV, RuntimeErrorV>(rv@),
                Err(re) => env_lookup(self@, ident@) == Err::<VarV, RuntimeErrorV>(re@),
            },
    {
        let key = String::from_str(ident);
        let ghost name = ident@;
        let mut j = self.frames.len();
        proof {
            assert(self@.subrange(0, self@.len() as int) =~= self@);
        }
        while j > 0
            invariant
                j <= self.frames@.len(),
                env_lookup(self@, name) == env_lookup(self@.subrange(0, j as int), name),
            decreases j,
        {
            j -= 1;
            let ghost prefix = self@.subrange(0, j + 1);
            proof {
                assert(prefix.drop_last() =~= self@.subrange(0, j as int));
                assert(prefix.last() == self@[j as int]);
            }
            match find_binding(&self.frames[j], &key) {
                Some(i) => {
                    proof {
                        lemma_frame_found(self.frames@[j as int]@, i as int);
                    }
                    return Ok(self.frames[j][i].var.duplicate());
                },
                None => {
                    proof {
                        lemma_frame_absent(self.frames@[j as int]@, name);
                        assert(!self@[j as int].contains_key(name));
                    }
                },
            }
        }
        proof {
            assert(self@.subrange(0, 0) =~= Seq::<Map<Seq<char>, VarV>>::empty());
        }
        Err(RuntimeError::VariableNotDeclared(key))
    }
}

} // verus!
