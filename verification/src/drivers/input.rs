//! The keys that the keyboard has sent and nobody has read.

use vstd::prelude::*;
use crossbeam_queue::ArrayQueue;

verus! {

/// A key, as the serial line sends it.
pub type Key = u8;

/// The number of keys that the buffer holds.
pub const INPUT_BUF_SIZE: usize = 256;

#[verifier::external_type_specification]
#[verifier::external_body]
#[verifier::reject_recursive_types(T)]
pub struct ExArrayQueue<T>(ArrayQueue<T>);

/// The keys in a queue, the oldest first.
pub uninterp spec fn spec_keys(queue: ArrayQueue<u8>) -> Seq<u8>;

/// The number of keys that a queue can hold.
pub uninterp spec fn spec_capacity(queue: ArrayQueue<u8>) -> nat;

/// The text that bytes stand for, with a replacement character for each
/// run of bytes that is no UTF-8, as `String::from_utf8_lossy` of std
/// gives it.
pub uninterp spec fn spec_lossy(bytes: Seq<u8>) -> Seq<char>;

/// `ArrayQueue::new` of crossbeam: an empty queue that can hold `cap`
/// keys.
#[verifier::external_body]
fn queue_new(cap: usize) -> (queue: ArrayQueue<u8>)
    requires
        cap > 0,
    ensures
        spec_keys(queue) == Seq::<u8>::empty(),
        spec_capacity(queue) == cap,
{
    ArrayQueue::new(cap)
}

/// `ArrayQueue::push` of crossbeam: puts `key` behind the keys of the
/// queue, unless the queue is full; the result says whether it did.
#[verifier::external_body]
fn queue_push(queue: &mut ArrayQueue<u8>, key: u8) -> (pushed: bool)
    ensures
        spec_capacity(*final(queue)) == spec_capacity(*old(queue)),
        pushed == (spec_keys(*old(queue)).len() < spec_capacity(*old(queue))),
        pushed ==> spec_keys(*final(queue)) == spec_keys(*old(queue)).push(key),
        !pushed ==> spec_keys(*final(queue)) == spec_keys(*old(queue)),
{
    queue.push(key).is_ok()
}

/// `ArrayQueue::pop` of crossbeam: takes the oldest key from the queue,
/// or gives `None` where the queue is empty.
#[verifier::external_body]
fn queue_pop(queue: &mut ArrayQueue<u8>) -> (key: Option<u8>)
    ensures
        spec_capacity(*final(queue)) == spec_capacity(*old(queue)),
        spec_keys(*old(queue)).len() == 0 ==> key is None && spec_keys(*final(queue)) == spec_keys(
            *old(queue),
        ),
        spec_keys(*old(queue)).len() > 0 ==> key == Some(spec_keys(*old(queue))[0]) && spec_keys(
            *final(queue),
        ) == spec_keys(*old(queue)).subrange(1, spec_keys(*old(queue)).len() as int),
{
    queue.pop()
}

/// `String::from_utf8_lossy` of std, as an owned string.
#[verifier::external_body]
pub(crate) fn lossy(bytes: &Vec<u8>) -> (text: String)
    ensures
        text@ == spec_lossy(bytes@),
{
    String::from_utf8_lossy(bytes).into_owned()
}

/// An empty buffer for [`INPUT_BUF_SIZE`] keys.
pub fn new_input_buffer() -> (queue: ArrayQueue<u8>)
    ensures
        spec_keys(queue) == Seq::<u8>::empty(),
        spec_capacity(queue) == INPUT_BUF_SIZE,
{
    queue_new(INPUT_BUF_SIZE)
}

/// Puts `key` behind the keys of the buffer. A key that finds the buffer
/// full is dropped.
pub fn push_key(queue: &mut ArrayQueue<u8>, key: Key)
    ensures
        spec_capacity(*final(queue)) == spec_capacity(*old(queue)),
        spec_keys(*final(queue)) == (if spec_keys(*old(queue)).len() < spec_capacity(*old(queue)) {
            spec_keys(*old(queue)).push(key)
        } else {
            spec_keys(*old(queue))
        }),
{
    let _ = queue_push(queue, key);
}

/// Takes the oldest key from the buffer, or gives `None` where the buffer
/// is empty.
pub fn try_pop_key(queue: &mut ArrayQueue<u8>) -> (key: Option<Key>)
    ensures
        spec_capacity(*final(queue)) == spec_capacity(*old(queue)),
        spec_keys(*old(queue)).len() == 0 ==> key is None && spec_keys(*final(queue)) == spec_keys(
            *old(queue),
        ),
        spec_keys(*old(queue)).len() > 0 ==> key == Some(spec_keys(*old(queue))[0]) && spec_keys(
            *final(queue),
        ) == spec_keys(*old(queue)).subrange(1, spec_keys(*old(queue)).len() as int),
{
    queue_pop(queue)
}

/// Whether the key ends a line.
pub open spec fn spec_is_newline(key: u8) -> bool {
    key == 0x0A || key == 0x0D
}

/// The place of the first key of `keys` that ends a line, or their number
/// where none does.
pub open spec fn spec_line_end(keys: Seq<u8>) -> int
    decreases keys.len(),
{
    if keys.len() == 0 {
        0
    } else if spec_is_newline(keys[0]) {
        0
    } else {
        1 + spec_line_end(keys.subrange(1, keys.len() as int))
    }
}

/// The first line end lies within the keys or at their end.
pub proof fn lemma_line_end(keys: Seq<u8>)
    ensures
        0 <= spec_line_end(keys) <= keys.len(),
    decreases keys.len(),
{
    if keys.len() > 0 && !spec_is_newline(keys[0]) {
        lemma_line_end(keys.subrange(1, keys.len() as int));
    }
}

/// Reads keys from the buffer up to the end of a line.
///
/// `line` holds the keys of the line that were read before. The keys of
/// the buffer up to the first that ends a line join them. Where a key
/// ends the line, it is taken from the buffer too, the result is the text
/// of the line, and `line` is empty again. Where the buffer runs empty
/// first, the result is `None`: the caller waits for more keys and asks
/// again.
pub fn get_line(queue: &mut ArrayQueue<u8>, line: &mut Vec<u8>) -> (text: Option<String>)
    ensures
        spec_capacity(*final(queue)) == spec_capacity(*old(queue)),
        ({
            let keys = spec_keys(*old(queue));
            let end = spec_line_end(keys);
            if end < keys.len() {
                &&& text matches Some(t)
                &&& t@ == spec_lossy(old(line)@ + keys.subrange(0, end))
                &&& final(line)@ == Seq::<u8>::empty()
                &&& spec_keys(*final(queue)) == keys.subrange(end + 1, keys.len() as int)
            } else {
                &&& text is None
                &&& final(line)@ == old(line)@ + keys
                &&& spec_keys(*final(queue)) == Seq::<u8>::empty()
            }
        }),
{
    let ghost keys = spec_keys(*queue);
    let ghost n: int = 0;
    proof {
        lemma_line_end(keys);
        assert(keys.subrange(0, 0) =~= Seq::<u8>::empty());
        assert(line@ + keys.subrange(0, 0) =~= line@);
        assert(keys.subrange(0, keys.len() as int) =~= keys);
    }
    loop
        invariant
            0 <= n <= keys.len(),
            spec_capacity(*queue) == spec_capacity(*old(queue)),
            keys == spec_keys(*old(queue)),
            spec_keys(*queue) == keys.subrange(n, keys.len() as int),
            line@ == old(line)@ + keys.subrange(0, n),
            spec_line_end(keys) == n + spec_line_end(keys.subrange(n, keys.len() as int)),
        decreases keys.len() - n,
    {
        let ghost rest = keys.subrange(n, keys.len() as int);
        match try_pop_key(queue) {
            Some(key) => {
                assert(key == keys[n]);
                assert(rest.subrange(1, rest.len() as int) =~= keys.subrange(
                    n + 1,
                    keys.len() as int,
                ));
                if key == 0x0A || key == 0x0D {
                    let text = lossy(line);
                    line.clear();
                    return Some(text);
                }
                line.push(key);
                proof {
                    assert(keys.subrange(0, n).push(key) =~= keys.subrange(0, n + 1));
                    assert(line@ =~= old(line)@ + keys.subrange(0, n + 1));
                    n = n + 1;
                }
            },
            None => {
                proof {
                    assert(keys.subrange(0, n) =~= keys);
                    assert(rest =~= Seq::<u8>::empty());
                }
                return None;
            },
        }
    }
}

} // verus!
