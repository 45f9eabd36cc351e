//! What the programs that come with the kernel compute.

use vstd::prelude::*;
use vstd::string::StringSliceAdditionalSpecFns;
use crate::drivers::input::{lossy, spec_lossy};

verus! {

/// The modulus of [`factorial`].
pub const MOD: u64 = 1000000007;

/// The product of the numbers from 1 to `n`, each step taken modulo
/// [`MOD`].
pub open spec fn spec_factorial(n: nat) -> nat
    decreases n,
{
    if n == 0 {
        1
    } else {
        (n * spec_factorial((n - 1) as nat)) % (MOD as nat)
    }
}

/// The factorial is below the modulus, or 1.
pub proof fn lemma_factorial_bound(n: nat)
    ensures
        spec_factorial(n) <= MOD,
    decreases n,
{
    if n > 0 {
        lemma_factorial_bound((n - 1) as nat);
    }
}

/// The product of the numbers from 1 to `n`, each step taken modulo
/// [`MOD`].
pub fn factorial(n: u64) -> (product: u64)
    requires
        n * MOD <= u64::MAX,
    ensures
        product == spec_factorial(n as nat),
    decreases n,
{
    if n == 0 {
        1
    } else {
        let rest = factorial(n - 1);
        proof {
            lemma_factorial_bound((n - 1) as nat);
            assert(n * rest <= n * MOD) by (nonlinear_arith)
                requires
                    rest <= MOD,
                    n >= 0,
            ;
        }
        n * rest % MOD
    }
}

/// A path while it is read: the parts that stand so far, and the bytes of
/// the part that is being read.
pub struct PathState {
    pub stack: Seq<Seq<u8>>,
    pub part: Seq<u8>,
}

/// The parts `stack` of a path after the part `part` has come to its end:
/// an empty part and `.` change nothing, `..` takes the last part away,
/// any other part joins the others.
pub open spec fn spec_end_part(stack: Seq<Seq<u8>>, part: Seq<u8>) -> Seq<Seq<u8>> {
    if part.len() == 0 || part == seq![0x2Eu8] {
        stack
    } else if part == seq![0x2Eu8, 0x2E] {
        if stack.len() > 0 {
            stack.drop_last()
        } else {
            stack
        }
    } else {
        stack.push(part)
    }
}

/// The path `path` read byte by byte: a slash ends a part, any other byte
/// joins the part that is being read.
pub open spec fn spec_read_path(path: Seq<u8>) -> PathState
    decreases path.len(),
{
    if path.len() == 0 {
        PathState { stack: Seq::empty(), part: Seq::empty() }
    } else {
        let before = spec_read_path(path.drop_last());
        if path.last() == 0x2F {
            PathState { stack: spec_end_part(before.stack, before.part), part: Seq::empty() }
        } else {
            PathState { stack: before.stack, part: before.part.push(path.last()) }
        }
    }
}

/// The parts of the path `path` that are left when `.` and `..` are
/// resolved.
pub open spec fn spec_path_parts(path: Seq<u8>) -> Seq<Seq<u8>> {
    spec_end_part(spec_read_path(path).stack, spec_read_path(path).part)
}

/// The parts `parts`, each behind a slash.
pub open spec fn spec_join_parts(parts: Seq<Seq<u8>>) -> Seq<u8>
    decreases parts.len(),
{
    if parts.len() == 0 {
        Seq::empty()
    } else {
        spec_join_parts(parts.drop_last()) + seq![0x2Fu8] + parts.last()
    }
}

/// The path that `raw` names when it is given in the directory `cwd`,
/// before `.` and `..` are resolved: `raw` where it starts with a slash,
/// else `raw` behind `cwd` and a slash.
pub open spec fn spec_full_path(cwd: Seq<u8>, raw: Seq<u8>) -> Seq<u8> {
    if raw.len() > 0 && raw[0] == 0x2F {
        raw
    } else if cwd == seq![0x2Fu8] {
        seq![0x2Fu8] + raw
    } else {
        cwd + seq![0x2Fu8] + raw
    }
}

/// The bytes of the absolute path that `raw` names in the directory
/// `cwd`.
pub open spec fn spec_abs_path(cwd: Seq<u8>, raw: Seq<u8>) -> Seq<u8> {
    let parts = spec_path_parts(spec_full_path(cwd, raw));
    if parts.len() == 0 {
        seq![0x2Fu8]
    } else {
        spec_join_parts(parts)
    }
}

/// The views of the parts of `stack`.
pub open spec fn spec_stack_view(stack: Seq<Vec<u8>>) -> Seq<Seq<u8>> {
    stack.map_values(|part: Vec<u8>| part@)
}

/// Ends the part `part` of a path whose parts so far are `stack`.
fn end_part(stack: &mut Vec<Vec<u8>>, part: Vec<u8>)
    ensures
        spec_stack_view(final(stack)@) == spec_end_part(spec_stack_view(old(stack)@), part@),
{
    let dot: bool = part.len() == 1 && part[0] == 0x2E;
    let dots: bool = part.len() == 2 && part[0] == 0x2E && part[1] == 0x2E;
    proof {
        if dot {
            assert(part@ =~= seq![0x2Eu8]);
        }
        if dots {
            assert(part@ =~= seq![0x2Eu8, 0x2E]);
        }
        if part@ == seq![0x2Eu8] {
            assert(part@.len() == 1 && part@[0] == 0x2E);
        }
        if part@ == seq![0x2Eu8, 0x2E] {
            assert(part@.len() == 2 && part@[0] == 0x2E && part@[1] == 0x2E);
        }
    }
    if part.len() == 0 || dot {
        assert(spec_stack_view(stack@) =~= spec_stack_view(old(stack)@));
    } else if dots {
        if stack.len() > 0 {
            stack.pop();
            assert(spec_stack_view(stack@) =~= spec_stack_view(old(stack)@).drop_last());
        }
    } else {
        stack.push(part);
        assert(spec_stack_view(stack@) =~= spec_stack_view(old(stack)@).push(part@));
    }
}

/// Reads the bytes of `path` into the state `stack` and `part`.
fn read_path(stack: &mut Vec<Vec<u8>>, part: &mut Vec<u8>, path: &[u8], done: Ghost<Seq<u8>>)
    requires
        spec_stack_view(old(stack)@) == spec_read_path(done@).stack,
        old(part)@ == spec_read_path(done@).part,
    ensures
        spec_stack_view(final(stack)@) == spec_read_path(done@ + path@).stack,
        final(part)@ == spec_read_path(done@ + path@).part,
{
    let mut i: usize = 0;
    assert(done@ + path@.take(0) =~= done@);
    while i < path.len()
        invariant
            0 <= i <= path.len(),
            spec_stack_view(stack@) == spec_read_path(done@ + path@.take(i as int)).stack,
            part@ == spec_read_path(done@ + path@.take(i as int)).part,
        decreases path.len() - i,
    {
        let byte = path[i];
        proof {
            let next = done@ + path@.take(i + 1);
            assert(next.drop_last() =~= done@ + path@.take(i as int));
            assert(next.last() == byte);
        }
        if byte == 0x2F {
            let mut ended: Vec<u8> = Vec::new();
            std::mem::swap(&mut ended, part);
            end_part(stack, ended);
        } else {
            part.push(byte);
        }
        i = i + 1;
    }
    assert(path@.take(i as int) =~= path@);
}

/// The absolute path that `raw` names in the directory `cwd`.
///
/// A path that starts with a slash is taken as it is; any other stands
/// behind `cwd`. Of its parts between slashes, empty ones and `.` are
/// dropped, and `..` takes the part before it away. The result is a slash
/// and the parts that are left with slashes between them; the bytes are
/// made a string as `String::from_utf8_lossy` does.
pub fn make_abs_path(cwd: &str, raw: &str) -> (path: String)
    ensures
        path@ == spec_lossy(spec_abs_path(cwd.spec_bytes(), raw.spec_bytes())),
{
    let cwd_bytes = cwd.as_bytes();
    let raw_bytes = raw.as_bytes();
    let mut stack: Vec<Vec<u8>> = Vec::new();
    let mut part: Vec<u8> = Vec::new();
    let slash: [u8; 1] = [0x2F];
    assert(slash@ =~= seq![0x2Fu8]);
    assert(spec_stack_view(stack@) =~= Seq::<Seq<u8>>::empty());
    let ghost full = spec_full_path(cwd_bytes@, raw_bytes@);
    let ghost one: Seq<u8> = seq![0x2Fu8];
    let ghost behind: Seq<u8> = cwd_bytes@ + seq![0x2Fu8];
    if raw_bytes.len() > 0 && raw_bytes[0] == 0x2F {
        read_path(&mut stack, &mut part, raw_bytes, Ghost(Seq::empty()));
        assert(Seq::<u8>::empty() + raw_bytes@ =~= full);
    } else if cwd_bytes.len() == 1 && cwd_bytes[0] == 0x2F {
        assert(cwd_bytes@ =~= seq![0x2Fu8]);
        read_path(&mut stack, &mut part, slash.as_slice(), Ghost(Seq::empty()));
        assert(Seq::<u8>::empty() + slash@ =~= seq![0x2Fu8]);
        read_path(&mut stack, &mut part, raw_bytes, Ghost(one));
    } else {
        proof {
            if cwd_bytes@ == seq![0x2Fu8] {
                assert(cwd_bytes@.len() == 1 && cwd_bytes@[0] == 0x2F);
            }
        }
        read_path(&mut stack, &mut part, cwd_bytes, Ghost(Seq::empty()));
        assert(Seq::<u8>::empty() + cwd_bytes@ =~= cwd_bytes@);
        read_path(&mut stack, &mut part, slash.as_slice(), Ghost(cwd_bytes@));
        read_path(&mut stack, &mut part, raw_bytes, Ghost(behind));
        assert(cwd_bytes@ + seq![0x2Fu8] + raw_bytes@ =~= full);
    }
    end_part(&mut stack, part);
    assert(spec_stack_view(stack@) == spec_path_parts(full));
    let mut out: Vec<u8> = Vec::new();
    if stack.len() == 0 {
        out.push(0x2F);
        assert(out@ =~= seq![0x2Fu8]);
    } else {
        let mut i: usize = 0;
        assert(spec_stack_view(stack@).take(0) =~= Seq::<Seq<u8>>::empty());
        while i < stack.len()
            invariant
                0 <= i <= stack.len(),
                out@ == spec_join_parts(spec_stack_view(stack@).take(i as int)),
            decreases stack.len() - i,
        {
            proof {
                let parts = spec_stack_view(stack@);
                assert(parts.take(i + 1).drop_last() =~= parts.take(i as int));
                assert(parts.take(i + 1).last() == stack@[i as int]@);
            }
            out.push(0x2F);
            let part = &stack[i];
            let mut k: usize = 0;
            let ghost before = out@;
            while k < part.len()
                invariant
                    0 <= k <= part.len(),
                    out@ == before + part@.take(k as int),
                decreases part.len() - k,
            {
                out.push(part[k]);
                assert(part@.take(k as int).push(part@[k as int]) =~= part@.take(k + 1));
                k = k + 1;
            }
            assert(part@.take(k as int) =~= part@);
            i = i + 1;
        }
        assert(spec_stack_view(stack@).take(i as int) =~= spec_stack_view(stack@));
    }
    lossy(&out)
}

} // verus!
