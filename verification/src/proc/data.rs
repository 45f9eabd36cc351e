//! What a process owns besides its memory: its environment.

use vstd::prelude::*;

verus! {

/// One variable of the environment.
pub struct EnvVar {
    pub key: String,
    pub value: String,
}

/// The data of a process. It leaves with the process when that is killed.
pub struct ProcessData {
    pub env: Vec<EnvVar>,
}

/// The variables of an environment as pairs of key and value, in their
/// order.
pub open spec fn spec_env_pairs(env: Seq<EnvVar>) -> Seq<(Seq<char>, Seq<char>)> {
    Seq::new(env.len(), |j: int| (env[j].key@, env[j].value@))
}

impl View for ProcessData {
    type V = Seq<(Seq<char>, Seq<char>)>;

    /// The variables of the environment as pairs of key and value, in
    /// their order.
    open spec fn view(&self) -> Seq<(Seq<char>, Seq<char>)> {
        spec_env_pairs(self.env@)
    }
}

/// The place of the first variable of `env` named `key`, or its length
/// where there is none.
pub open spec fn spec_env_index(env: Seq<EnvVar>, key: Seq<char>) -> int
    decreases env.len(),
{
    if env.len() == 0 {
        0
    } else if env[0].key@ == key {
        0
    } else {
        1 + spec_env_index(env.subrange(1, env.len() as int), key)
    }
}

/// The value of the first variable of `env` named `key`.
pub open spec fn spec_env_lookup(env: Seq<EnvVar>, key: Seq<char>) -> Option<Seq<char>> {
    let i = spec_env_index(env, key);
    if i < env.len() {
        Some(env[i].value@)
    } else {
        None
    }
}

/// The index of `key` in `env` lies within the sequence or at its end,
/// names a variable with that key where it lies within, and no variable
/// before it has the key.
pub proof fn lemma_env_index(env: Seq<EnvVar>, key: Seq<char>)
    ensures
        0 <= spec_env_index(env, key) <= env.len(),
        spec_env_index(env, key) < env.len() ==> env[spec_env_index(env, key)].key@ == key,
        forall|j: int| 0 <= j < spec_env_index(env, key) ==> (#[trigger] env[j]).key@ != key,
    decreases env.len(),
{
    if env.len() > 0 && env[0].key@ != key {
        let rest = env.subrange(1, env.len() as int);
        lemma_env_index(rest, key);
        assert forall|j: int| 0 <= j < spec_env_index(env, key) implies (#[trigger] env[j]).key@
            != key by {
            if j > 0 {
                assert(env[j] == rest[j - 1]);
            }
        }
    }
}

/// Where no variable of the first `i` has the key and the `i`-th has it,
/// or `i` is the length, `i` is the index of the key.
proof fn lemma_env_index_is(env: Seq<EnvVar>, key: Seq<char>, i: int)
    requires
        0 <= i <= env.len(),
        forall|j: int| 0 <= j < i ==> (#[trigger] env[j]).key@ != key,
        i < env.len() ==> env[i].key@ == key,
    ensures
        spec_env_index(env, key) == i,
    decreases env.len(),
{
    if env.len() > 0 && i > 0 {
        let rest = env.subrange(1, env.len() as int);
        assert(env[0].key@ != key);
        assert forall|j: int| 0 <= j < i - 1 implies (#[trigger] rest[j]).key@ != key by {
            assert(rest[j] == env[j + 1]);
        }
        if i < env.len() {
            assert(rest[i - 1] == env[i]);
        }
        lemma_env_index_is(rest, key, i - 1);
    }
}

impl ProcessData {
    /// Data with an empty environment.
    pub fn new() -> (data: ProcessData)
        ensures
            data.env@ == Seq::<EnvVar>::empty(),
    {
        ProcessData { env: Vec::new() }
    }

    /// Adds a variable to the end of the environment.
    pub fn set_env(self, key: String, value: String) -> (data: ProcessData)
        ensures
            data.env@ == self.env@.push(EnvVar { key, value }),
    {
        let mut data = self;
        data.env.push(EnvVar { key, value });
        data
    }

    /// The value of the first variable named `key`.
    pub fn env(&self, key: &String) -> (value: Option<String>)
        ensures
            value is Some == spec_env_lookup(self.env@, key@) is Some,
            value matches Some(v) ==> Some(v@) == spec_env_lookup(self.env@, key@),
    {
        let mut i: usize = 0;
        while i < self.env.len()
            invariant
                0 <= i <= self.env.len(),
                forall|j: int| 0 <= j < i ==> (#[trigger] self.env@[j]).key@ != key@,
            decreases self.env.len() - i,
        {
            if self.env[i].key == *key {
                proof {
                    lemma_env_index_is(self.env@, key@, i as int);
                }
                return Some(self.env[i].value.clone());
            }
            i = i + 1;
        }
        proof {
            lemma_env_index_is(self.env@, key@, i as int);
        }
        None
    }

    /// A copy of the data, with the same variables in the same order.
    pub fn duplicate(&self) -> (data: ProcessData)
        ensures
            data.env@.len() == self.env@.len(),
            forall|j: int|
                0 <= j < self.env@.len() ==> (#[trigger] data.env@[j]).key@ == self.env@[j].key@
                    && data.env@[j].value@ == self.env@[j].value@,
            data@ == self@,
    {
        let mut env: Vec<EnvVar> = Vec::new();
        let mut i: usize = 0;
        while i < self.env.len()
            invariant
                0 <= i <= self.env.len(),
                env@.len() == i,
                forall|j: int|
                    0 <= j < i ==> (#[trigger] env@[j]).key@ == self.env@[j].key@ && env@[j].value@
                        == self.env@[j].value@,
            decreases self.env.len() - i,
        {
            let var = EnvVar { key: self.env[i].key.clone(), value: self.env[i].value.clone() };
            env.push(var);
            i = i + 1;
        }
        assert(spec_env_pairs(env@) =~= spec_env_pairs(self.env@));
        ProcessData { env }
    }
}

} // verus!
