//! A runnable background task and the names derived from it.

use vstd::prelude::*;
use std::collections::hash_map::DefaultHasher;
use std::hash::{Hash, Hasher};
use vstd::std_specs::hash::DefaultHasherAdditionalSpecFns;
use crate::radix::{base36_text, is_base36_char, is_radix_digit, lemma_base36_digit_char,
    lemma_radix_text_canonical,
    to_base36};
use crate::text::{ascii_lower, is_ascii_text, lowercase, push_char, to_lowercase};

verus! {

/// A background task that the process manager can launch.
///
/// The task is triggered by the environment variable `env_var` (for example
/// `MY_TASK=1`) and runs `work` inside a background process.  Each instance of
/// a task is told apart by `id`, which is hashed into the name of the
/// instance's directory.
#[derive(Debug, Clone)]
pub struct ChildTask<W> {
    /// Instance identifier, hashed into the directory name.
    pub id: String,
    /// The environment variable that marks a process as the task's worker.
    pub env_var: &'static str,
    /// The task's handler.
    pub work: W,
}

/// The writes that `<String as Hash>::hash` makes into a hasher, given the
/// writes `before` it already holds and the text `s` being hashed.
pub uninterp spec fn string_hash_writes(before: Seq<Seq<u8>>, s: Seq<char>) -> Seq<Seq<u8>>;

/// Calls `<String as Hash>::hash` on a `DefaultHasher`.  What it writes is
/// named by [`string_hash_writes`]; the bytes themselves are left unsaid.
#[verifier::external_body]
fn hash_string(s: &String, hasher: &mut DefaultHasher)
    ensures
        final(hasher)@ == string_hash_writes(old(hasher)@, s@),
{
    s.hash(hasher);
}

/// `s` with every underscore replaced by a hyphen.
pub open spec fn hyphenated(s: Seq<char>) -> Seq<char> {
    s.map_values(|c: char| if c == '_' { '-' } else { c })
}

/// The lower-case, hyphenated base name of the task triggered by `env_var`
/// (`MY_TASK` gives `my-task`).
pub open spec fn name_base(env_var: Seq<char>) -> Seq<char> {
    hyphenated(lowercase(env_var))
}

/// The base name of a task whose variable is ASCII: upper-case letters
/// lowered, underscores turned into hyphens (`MY_TASK` gives `my-task`).
pub open spec fn ascii_name_base(env_var: Seq<char>) -> Seq<char> {
    env_var.map_values(|c: char| if c == '_' { '-' } else { ascii_lower(c) })
}

/// The hash of an instance identifier: a fresh `DefaultHasher` fed the
/// identifier, then finished.
pub open spec fn id_hash(id: Seq<char>) -> u64 {
    DefaultHasher::spec_finish(string_hash_writes(Seq::empty(), id))
}

/// Twelve base-36 digits of a hash: the first twelve of its base-36 text,
/// with zeros put in front of a text that is shorter.
pub open spec fn hash_digits(hash: u64) -> Seq<char> {
    let text = base36_text(hash as nat);
    if text.len() >= 12 {
        text.take(12)
    } else {
        Seq::new((12 - text.len()) as nat, |i: int| '0') + text
    }
}

/// The directory name of an instance: the base name, a hyphen, and twelve
/// base-36 digits of the hash.
pub open spec fn instance_name(base: Seq<char>, hash: u64) -> Seq<char> {
    base + seq!['-'] + hash_digits(hash)
}

/// An identifier from which a directory name is made: it is set.
pub open spec fn nameable(id: Seq<char>) -> bool {
    id.len() > 0
}

/// The directory name of the instance `id` of the task triggered by `env_var`.
pub open spec fn task_dir_name(env_var: Seq<char>, id: Seq<char>) -> Seq<char> {
    instance_name(name_base(env_var), id_hash(id))
}

/// `name` has the shape of an instance directory name of the task with base
/// name `base`: the base name, a hyphen, then exactly twelve base-36 digits.
pub open spec fn is_instance_name(base: Seq<char>, name: Seq<char>) -> bool {
    &&& name.len() == base.len() + 13
    &&& name.take(base.len() as int) == base
    &&& name[base.len() as int] == '-'
    &&& forall|i: int| base.len() < i < name.len() ==> is_base36_char(#[trigger] name[i])
}

/// Replaces every underscore of `s` by a hyphen.
pub fn hyphenate(s: &str) -> (res: String)
    ensures
        res@ == hyphenated(s@),
{
    let n = s.unicode_len();
    let mut out = String::new();
    let mut i: usize = 0;
    while i < n
        invariant
            n == s@.len(),
            i <= n,
            out@.len() == i,
            forall|k: int| 0 <= k < i ==> #[trigger] out@[k] == (if s@[k] == '_' { '-' } else { s@[k] }),
        decreases n - i,
    {
        let c = s.get_char(i);
        if c == '_' {
            push_char(&mut out, '-');
        } else {
            push_char(&mut out, c);
        }
        i = i + 1;
    }
    assert(out@ =~= hyphenated(s@));
    out
}

/// Builds the directory name of an instance from the task's base name and the
/// hash of the instance identifier.
pub fn instance_dir_name(base: &str, hash: u64) -> (res: String)
    ensures
        res@ == instance_name(base@, hash),
{
    let digits = to_base36(hash);
    let n = digits.as_str().unicode_len();
    let mut name = String::from_str(base);
    push_char(&mut name, '-');
    let ghost head = name@;
    if n >= 12 {
        let suffix = digits.as_str().substring_char(0, 12);
        name.append(suffix);
    } else {
        let mut k: usize = n;
        while k < 12
            invariant
                n <= k <= 12,
                name@ == head + Seq::new((k - n) as nat, |i: int| '0'),
            decreases 12 - k,
        {
            push_char(&mut name, '0');
            assert(Seq::new((k + 1 - n) as nat, |i: int| '0') =~= Seq::new((k - n) as nat, |i: int| '0').push('0'));
            k = k + 1;
        }
        name.append(digits.as_str());
    }
    assert(name@ =~= instance_name(base@, hash));
    name
}

/// Whether `name` is an instance directory name of the task whose base name
/// is `base` (see [`is_instance_name`]).
pub fn is_instance_dir_name(base: &str, name: &str) -> (res: bool)
    ensures
        res == is_instance_name(base@, name@),
{
    let b = base.unicode_len();
    let n = name.unicode_len();
    if n < 13 || n - 13 != b {
        return false;
    }
    let mut i: usize = 0;
    while i < b
        invariant
            b == base@.len(),
            n == name@.len(),
            n == b + 13,
            i <= b,
            forall|k: int| 0 <= k < i ==> name@[k] == base@[k],
        decreases b - i,
    {
        if name.get_char(i) != base.get_char(i) {
            assert(name@.take(b as int)[i as int] != base@[i as int]);
            return false;
        }
        i = i + 1;
    }
    assert(name@.take(b as int) =~= base@);
    if name.get_char(b) != '-' {
        return false;
    }
    let mut j: usize = b + 1;
    while j < n
        invariant
            b == base@.len(),
            n == name@.len(),
            n == b + 13,
            b < j <= n,
            forall|k: int| b < k < j ==> is_base36_char(#[trigger] name@[k]),
        decreases n - j,
    {
        let c = name.get_char(j);
        if !(('0' <= c && c <= '9') || ('a' <= c && c <= 'z')) {
            return false;
        }
        j = j + 1;
    }
    true
}

/// The twelve digits of a hash are base-36 digits.
proof fn lemma_hash_digits_shape(hash: u64)
    ensures
        hash_digits(hash).len() == 12,
        forall|i: int| 0 <= i < 12 ==> is_base36_char(#[trigger] hash_digits(hash)[i]),
{
    let text = base36_text(hash as nat);
    lemma_radix_text_canonical(hash as nat, 36);
    assert forall|i: int| 0 <= i < 12 implies is_base36_char(#[trigger] hash_digits(hash)[i]) by {
        if text.len() >= 12 {
            assert(hash_digits(hash)[i] == text[i]);
            lemma_base36_digit_char(text[i]);
        } else {
            let pad = (12 - text.len()) as int;
            if i >= pad {
                assert(hash_digits(hash)[i] == text[i - pad]);
                lemma_base36_digit_char(text[i - pad]);
            }
        }
    }
}

/// Every instance directory name has the shape [`is_instance_name`] for its
/// task's base name.
pub proof fn lemma_instance_name_shape(base: Seq<char>, hash: u64)
    ensures
        is_instance_name(base, instance_name(base, hash)),
{
    lemma_hash_digits_shape(hash);
    let name = instance_name(base, hash);
    assert(name.take(base.len() as int) =~= base);
    assert forall|i: int| base.len() < i < name.len() implies is_base36_char(#[trigger] name[i]) by {
        assert(name[i] == hash_digits(hash)[i - base.len() - 1]);
    }
}

/// An instance directory of a task with another base name never has the
/// shape of the instance directories of base `base`: a task's workers are told
/// apart from those of every task with a different base name.
pub proof fn lemma_other_task_names_differ(base: Seq<char>, other: Seq<char>, hash: u64)
    requires
        base != other,
    ensures
        !is_instance_name(base, instance_name(other, hash)),
{
    let name = instance_name(other, hash);
    lemma_hash_digits_shape(hash);
    if is_instance_name(base, name) {
        assert(other.len() == base.len());
        assert(name.take(base.len() as int) =~= other);
    }
}

/// The directory of an instance is named after the hash of its whole
/// identifier: what a fresh `DefaultHasher` gives after the entire text of the
/// identifier is hashed, so that no part of the identifier is left out.
pub proof fn lemma_dir_name_hashes_whole_id(env_var: Seq<char>, id: Seq<char>)
    ensures
        task_dir_name(env_var, id) == instance_name(
            name_base(env_var),
            DefaultHasher::spec_finish(string_hash_writes(Seq::<Seq<u8>>::empty(), id)),
        ),
{
}

/// The directory name of an instance depends on the task's variable and the
/// instance identifier alone: two tasks with the same variable and the same
/// identifier, whatever their handlers, name the same directory.
pub proof fn lemma_task_dir_name_determined<W>(a: ChildTask<W>, b: ChildTask<W>)
    requires
        a.env_var@ == b.env_var@,
        a.id@ == b.id@,
    ensures
        task_dir_name(a.env_var@, a.id@) == task_dir_name(b.env_var@, b.id@),
{
}

impl<W> ChildTask<W> {
    /// The lower-case, hyphenated base name of the task, derived from its
    /// environment variable (`MY_TASK` gives `"my-task"`).
    pub fn task_name_base(&self) -> (res: String)
        ensures
            res@ == name_base(self.env_var@),
            is_ascii_text(self.env_var@) ==> res@ == ascii_name_base(self.env_var@),
    {
        let lowered = to_lowercase(self.env_var);
        let res = hyphenate(lowered.as_str());
        proof {
            if is_ascii_text(self.env_var@) {
                assert(res@ =~= ascii_name_base(self.env_var@));
            }
        }
        res
    }

    /// The hash of this instance's identifier: a fresh `DefaultHasher` fed
    /// the whole identifier, then finished.
    pub fn id_hash(&self) -> (res: u64)
        ensures
            res == id_hash(self.id@),
            res == DefaultHasher::spec_finish(string_hash_writes(Seq::<Seq<u8>>::empty(), self.id@)),
    {
        let mut hasher = DefaultHasher::new();
        hash_string(&self.id, &mut hasher);
        hasher.finish()
    }

    /// The directory name of the instance: the base name, a hyphen and
    /// twelve base-36 digits of the hash of `id` (for example
    /// `my-task-a1b2c3d4e5f6`).  The identifier must be set.
    pub fn task_name(&self) -> (res: String)
        requires
            nameable(self.id@),
        ensures
            res@ == task_dir_name(self.env_var@, self.id@),
            res@ == instance_name(
                name_base(self.env_var@),
                DefaultHasher::spec_finish(string_hash_writes(Seq::<Seq<u8>>::empty(), self.id@)),
            ),
    {
        let base = self.task_name_base();
        let hash = self.id_hash();
        instance_dir_name(base.as_str(), hash)
    }
}

impl<W: Copy> ChildTask<W> {
    /// A copy of the task with the instance identifier `new_id`; the task
    /// itself is left as it is.
    pub fn set_id(&self, new_id: &str) -> (res: Self)
        ensures
            res.id@ == new_id@,
            res.env_var == self.env_var,
            res.work == self.work,
    {
        ChildTask { id: String::from_str(new_id), env_var: self.env_var, work: self.work }
    }
}

} // verus!
