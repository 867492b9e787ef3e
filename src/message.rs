//! Composing a commit message from the current branch and the words given
//! on the command line.

use vstd::prelude::*;

verus! {

/// The ticket-identifier prefix, as characters.
pub open spec fn ticket_prefix() -> Seq<char> {
    seq!['K', 'D', 'B', '-']
}

/// Whether `s` follows the ticket naming convention: it starts with the
/// prefix, compared exactly and case-sensitively.
pub open spec fn has_ticket_prefix(s: Seq<char>) -> bool {
    ticket_prefix().is_prefix_of(s)
}

/// Tests whether `s` starts with the ticket prefix.
pub fn starts_with_ticket_prefix(s: &str) -> (r: bool)
    ensures
        r == has_ticket_prefix(s@),
{
    let n = s.unicode_len();
    if n < 4 {
        return false;
    }
    let r = s.get_char(0) == 'K' && s.get_char(1) == 'D' && s.get_char(2) == 'B'
        && s.get_char(3) == '-';
    assert(r == (s@.subrange(0, 4) =~= ticket_prefix()));
    r
}

/// Whether no character of `s` is a path separator.
pub open spec fn slash_free(s: Seq<char>) -> bool {
    forall|j: int| 0 <= j < s.len() ==> s[j] != '/'
}

/// The characters of `s` up to, not including, its first `/`; all of `s`
/// when it has none.
pub open spec fn before_slash(s: Seq<char>) -> Seq<char>
    decreases s.len(),
{
    if s.len() == 0 {
        s
    } else if s[0] == '/' {
        Seq::empty()
    } else {
        seq![s[0]] + before_slash(s.drop_first())
    }
}

/// The ticket identifier that a branch name carries, if it follows the
/// convention.
pub open spec fn branch_ticket(branch: Seq<char>) -> Option<Seq<char>> {
    if has_ticket_prefix(branch) {
        Some(before_slash(branch))
    } else {
        None
    }
}

/// Whether the first word of `args` is already a ticket identifier.
pub open spec fn args_carry_ticket(args: Seq<Seq<char>>) -> bool {
    args.len() > 0 && has_ticket_prefix(args[0])
}

/// The words of the commit message, before joining.
pub open spec fn message_words(branch: Seq<char>, args: Seq<Seq<char>>) -> Seq<Seq<char>> {
    if args_carry_ticket(args) {
        args
    } else {
        match branch_ticket(branch) {
            Some(id) => seq![id] + args,
            None => args,
        }
    }
}

/// `words` joined with one space between neighbours.
pub open spec fn joined(words: Seq<Seq<char>>) -> Seq<char>
    decreases words.len(),
{
    if words.len() == 0 {
        Seq::empty()
    } else if words.len() == 1 {
        words[0]
    } else {
        joined(words.drop_last()) + seq![' '] + words.last()
    }
}

/// The commit message for a branch name and the command-line words.
pub open spec fn compose_message(branch: Seq<char>, args: Seq<Seq<char>>) -> Seq<char> {
    joined(message_words(branch, args))
}

/// The view of an optional string.
pub open spec fn opt_view(o: Option<String>) -> Option<Seq<char>> {
    match o {
        Some(t) => Some(t@),
        None => None,
    }
}

/// Cutting at the first `/` keeps a slash-free prefix and cuts what follows.
proof fn lemma_before_slash_split(s: Seq<char>, i: int)
    requires
        0 <= i <= s.len(),
        slash_free(s.subrange(0, i)),
    ensures
        before_slash(s) == s.subrange(0, i) + before_slash(s.subrange(i, s.len() as int)),
    decreases i,
{
    if i == 0 {
        assert(s.subrange(0, 0) + s.subrange(0, s.len() as int) =~= s);
        assert(s.subrange(0, s.len() as int) =~= s);
        assert(s.subrange(0, 0) =~= Seq::<char>::empty());
    } else {
        let t = s.drop_first();
        assert(s[0] == s.subrange(0, i)[0]);
        assert(t.subrange(0, i - 1) =~= s.subrange(1, i));
        assert forall|j: int| 0 <= j < i - 1 implies #[trigger] t.subrange(0, i - 1)[j] != '/' by {
            assert(t.subrange(0, i - 1)[j] == s.subrange(0, i)[j + 1]);
        }
        lemma_before_slash_split(t, i - 1);
        assert(t.subrange(i - 1, t.len() as int) =~= s.subrange(i, s.len() as int));
        assert(seq![s[0]] + t.subrange(0, i - 1) =~= s.subrange(0, i));
        assert(seq![s[0]] + (t.subrange(0, i - 1) + before_slash(s.subrange(i, s.len() as int)))
            =~= s.subrange(0, i) + before_slash(s.subrange(i, s.len() as int)));
    }
}

/// A name with no `/` is kept whole.
proof fn lemma_before_slash_whole(s: Seq<char>)
    requires
        slash_free(s),
    ensures
        before_slash(s) == s,
{
    assert(s.subrange(0, s.len() as int) =~= s);
    lemma_before_slash_split(s, s.len() as int);
    assert(s.subrange(s.len() as int, s.len() as int) =~= Seq::<char>::empty());
    assert(s + Seq::<char>::empty() =~= s);
}

/// A name is cut at its first `/`.
proof fn lemma_before_slash_cut(s: Seq<char>, i: int)
    requires
        0 <= i < s.len(),
        s[i] == '/',
        slash_free(s.subrange(0, i)),
    ensures
        before_slash(s) == s.subrange(0, i),
{
    lemma_before_slash_split(s, i);
    let rest = s.subrange(i, s.len() as int);
    assert(rest[0] == '/');
    assert(before_slash(rest) =~= Seq::<char>::empty());
    assert(s.subrange(0, i) + Seq::<char>::empty() =~= s.subrange(0, i));
}

/// The message is a function of the branch name and the words alone:
/// two states that agree on both give the same message, however often it
/// is composed.
pub proof fn message_determined_by_inputs(s1: &State, s2: &State)
    requires
        s1.branch@ == s2.branch@,
        s1.args_view() == s2.args_view(),
    ensures
        compose_message(s1.branch@, s1.args_view()) == compose_message(
            s2.branch@,
            s2.args_view(),
        ),
{
}

/// Where `message` finds what it joins: the branch it is on and the words
/// it was given.
pub struct State {
    pub branch: String,
    pub args: Vec<String>,
}

impl State {
    /// The command-line words, as character sequences.
    pub open spec fn args_view(&self) -> Seq<Seq<char>> {
        self.args.deep_view()
    }

    /// The commit message: the message words joined by single spaces.
    pub fn message(&self) -> (r: String)
        ensures
            r@ == compose_message(self.branch@, self.args_view()),
            args_carry_ticket(self.args_view()) ==> r@ == joined(self.args_view()),
            !args_carry_ticket(self.args_view()) && has_ticket_prefix(self.branch@)
                && slash_free(self.branch@) ==> r@ == joined(
                seq![self.branch@] + self.args_view(),
            ),
            forall|i: int|
                #![trigger self.branch@.subrange(0, i)]
                !args_carry_ticket(self.args_view()) && has_ticket_prefix(self.branch@) && 0 <= i
                    < self.branch@.len() && self.branch@[i] == '/' && slash_free(
                    self.branch@.subrange(0, i),
                ) ==> r@ == joined(seq![self.branch@.subrange(0, i)] + self.args_view()),
            !args_carry_ticket(self.args_view()) && !has_ticket_prefix(self.branch@) ==> r@
                == joined(self.args_view()),
    {
        let words = self.split_message();
        proof {
            let b = self.branch@;
            if slash_free(b) {
                lemma_before_slash_whole(b);
            }
            assert forall|i: int|
                0 <= i < b.len() && b[i] == '/' && slash_free(
                    #[trigger] b.subrange(0, i),
                ) implies before_slash(b) == b.subrange(0, i) by {
                lemma_before_slash_cut(b, i);
            }
        }
        join_with_spaces(&words)
    }

    /// The message words: the given words, with the branch's ticket
    /// identifier put first unless the first word already is one.
    pub fn split_message(&self) -> (r: Vec<String>)
        ensures
            r.deep_view() == message_words(self.branch@, self.args_view()),
    {
        if self.args_has_ticket_id() {
            return copy_words(&self.args);
        }
        if let Some(id) = self.branch_ticket_id() {
            let mut words = copy_words(&self.args);
            let ghost before = words.deep_view();
            words.insert(0, id);
            assert(words.deep_view() =~= seq![id@] + before);
            return words;
        }
        copy_words(&self.args)
    }

    /// Whether the first word follows the ticket convention.
    pub fn args_has_ticket_id(&self) -> (r: bool)
        ensures
            r == args_carry_ticket(self.args_view()),
    {
        if self.args.len() > 0 {
            starts_with_ticket_prefix(self.args[0].as_str())
        } else {
            false
        }
    }

    /// The branch's ticket identifier: the name up to its first `/`, when
    /// the name follows the ticket convention.
    pub fn branch_ticket_id(&self) -> (r: Option<String>)
        ensures
            opt_view(r) == branch_ticket(self.branch@),
    {
        let b = self.branch.as_str();
        if !starts_with_ticket_prefix(b) {
            return None;
        }
        let n = b.unicode_len();
        let mut i: usize = 0;
        while i < n
            invariant
                n == b@.len(),
                i <= n,
                b@ == self.branch@,
                has_ticket_prefix(b@),
                slash_free(b@.subrange(0, i as int)),
            decreases n - i,
        {
            if b.get_char(i) == '/' {
                proof {
                    lemma_before_slash_cut(b@, i as int);
                }
                let id = String::from_str(b.substring_char(0, i));
                assert(id@ == before_slash(self.branch@));
                return Some(id);
            }
            assert forall|j: int| 0 <= j < i + 1 implies #[trigger] b@.subrange(0, i + 1)[j] != '/' by {
                if j < i {
                    assert(b@.subrange(0, i + 1)[j] == b@.subrange(0, i as int)[j]);
                }
            }
            i += 1;
        }
        proof {
            assert(b@.subrange(0, n as int) =~= b@);
            lemma_before_slash_whole(b@);
        }
        Some(self.branch.clone())
    }
}

/// A copy of each word, in order.
fn copy_words(words: &Vec<String>) -> (r: Vec<String>)
    ensures
        r.deep_view() == words.deep_view(),
{
    let mut out: Vec<String> = Vec::new();
    let mut i: usize = 0;
    while i < words.len()
        invariant
            i <= words.len(),
            out@.len() == i,
            forall|k: int| 0 <= k < i ==> #[trigger] out@[k]@ == words@[k]@,
        decreases words.len() - i,
    {
        out.push(words[i].clone());
        i += 1;
    }
    assert(out.deep_view() =~= words.deep_view());
    out
}

/// The words joined with one space between neighbours.
fn join_with_spaces(words: &Vec<String>) -> (r: String)
    ensures
        r@ == joined(words.deep_view()),
{
    let ghost w = words.deep_view();
    let mut out = String::new();
    let mut i: usize = 0;
    while i < words.len()
        invariant
            i <= words.len(),
            w == words.deep_view(),
            out@ == joined(w.subrange(0, i as int)),
        decreases words.len() - i,
    {
        let ghost prev = out@;
        if i > 0 {
            proof {
                reveal_strlit(" ");
            }
            out.append(" ");
        }
        out.append(words[i].as_str());
        proof {
            let next = w.subrange(0, i + 1);
            assert(next.drop_last() =~= w.subrange(0, i as int));
            if i == 0 {
                assert(prev =~= Seq::<char>::empty());
                assert(out@ =~= next[0]);
            } else {
                assert(out@ =~= prev + seq![' '] + next.last());
            }
        }
        i += 1;
    }
    assert(w.subrange(0, words.len() as int) =~= w);
    out
}

} // verus!
