use vstd::prelude::*;

verus! {

/// `regex::Regex`, a compiled regular expression, carried through as an
/// opaque value.
#[verifier::external_type_specification]
#[verifier::external_body]
pub struct ExRegex(regex::Regex);

/// Whether `regex::Regex::new` accepts `pattern`.
pub uninterp spec fn regex_compiles(pattern: Seq<char>) -> bool;

/// Whether the regex compiled from `pattern` matches anywhere in `text`
/// (`regex::Regex::is_match`; the pattern is not implicitly anchored).
pub uninterp spec fn regex_is_match(pattern: Seq<char>, text: Seq<char>) -> bool;

/// Calls `regex::Regex::new`. Trusted: the call succeeds exactly when the
/// pattern is one that `regex` accepts, which depends on the pattern alone.
#[verifier::external_body]
fn compile_regex(pattern: &str) -> (r: Option<regex::Regex>)
    ensures
        r is Some <==> regex_compiles(pattern@),
{
    regex::Regex::new(pattern).ok()
}

/// A regular expression together with the text it was compiled from.
pub struct Pattern {
    regex: regex::Regex,
    source: Ghost<Seq<char>>,
}

impl Pattern {
    /// The text the pattern was compiled from.
    pub closed spec fn source(&self) -> Seq<char> {
        self.source@
    }

    /// Compiles `source`; `None` when `regex` refuses it.
    pub fn compile(source: &str) -> (r: Option<Pattern>)
        ensures
            r is Some <==> regex_compiles(source@),
            r matches Some(p) ==> p.source() == source@,
    {
        match compile_regex(source) {
            Some(regex) => Some(Pattern { regex, source: Ghost(source@) }),
            None => None,
        }
    }

    /// Whether the pattern matches anywhere in `text`.
    pub fn is_match(&self, text: &str) -> (b: bool)
        ensures
            b == regex_is_match(self.source(), text@),
    {
        regex_find(self, text)
    }
}

/// Calls `regex::Regex::is_match` on the regex that `Pattern::compile` built
/// from the pattern's source (the only place where a `Pattern` is made).
/// Trusted: the answer is whether that regex matches somewhere in `text`.
#[verifier::external_body]
fn regex_find(p: &Pattern, text: &str) -> (b: bool)
    ensures
        b == regex_is_match(p.source(), text@),
{
    p.regex.is_match(text)
}

/// Whether every pattern in `patterns` compiles.
pub open spec fn all_compile(patterns: Seq<Seq<char>>) -> bool {
    forall|i: int| 0 <= i < patterns.len() ==> regex_compiles(#[trigger] patterns[i])
}

/// The names, in their order, in which `pattern` matches.
pub open spec fn matching(pattern: Seq<char>, names: Seq<Seq<char>>) -> Seq<Seq<char>>
    decreases names.len(),
{
    if names.len() == 0 {
        Seq::empty()
    } else {
        let before = matching(pattern, names.drop_last());
        if regex_is_match(pattern, names.last()) {
            before.push(names.last())
        } else {
            before
        }
    }
}

/// What `matching` keeps is among the names it was given.
pub proof fn law_matching_within(pattern: Seq<char>, names: Seq<Seq<char>>)
    ensures
        forall|x: Seq<char>| matching(pattern, names).contains(x) ==> names.contains(x),
    decreases names.len(),
{
    if names.len() > 0 {
        law_matching_within(pattern, names.drop_last());
        assert forall|x: Seq<char>| matching(pattern, names).contains(x) implies names.contains(x) by {
            let before = matching(pattern, names.drop_last());
            if before.contains(x) {
                assert(names.drop_last().contains(x));
                let k = choose|k: int| 0 <= k < names.drop_last().len() && names.drop_last()[k] == x;
                assert(names[k] == x);
            } else {
                assert(x == names.last());
                assert(names[names.len() - 1] == x);
            }
        }
    }
}

/// `matching` keeps exactly the names the pattern matches: a name is kept
/// if and only if it is one of `names` and the pattern matches it.
pub proof fn law_matching_is_the_matched_names(pattern: Seq<char>, names: Seq<Seq<char>>)
    ensures
        forall|x: Seq<char>|
            #![trigger matching(pattern, names).contains(x)]
            matching(pattern, names).contains(x) <==> (names.contains(x) && regex_is_match(
                pattern,
                x,
            )),
    decreases names.len(),
{
    if names.len() > 0 {
        law_matching_is_the_matched_names(pattern, names.drop_last());
        let before = matching(pattern, names.drop_last());
        assert forall|x: Seq<char>|
            #![trigger matching(pattern, names).contains(x)]
            matching(pattern, names).contains(x) <==> (names.contains(x) && regex_is_match(
                pattern,
                x,
            )) by {
            let now = matching(pattern, names);
            if now.contains(x) {
                if before.contains(x) {
                    assert(names.drop_last().contains(x) && regex_is_match(pattern, x));
                    let k = choose|k: int|
                        0 <= k < names.drop_last().len() && names.drop_last()[k] == x;
                    assert(names[k] == x);
                } else {
                    let k = choose|k: int| 0 <= k < now.len() && now[k] == x;
                    if k < before.len() {
                        assert(before[k] == x);
                    }
                    assert(x == names.last());
                    assert(names[names.len() - 1] == x);
                }
            }
            if names.contains(x) && regex_is_match(pattern, x) {
                let k = choose|k: int| 0 <= k < names.len() && names[k] == x;
                if k < names.len() - 1 {
                    assert(names.drop_last()[k] == x);
                    assert(names.drop_last().contains(x));
                    assert(before.contains(x));
                    let j = choose|j: int| 0 <= j < before.len() && before[j] == x;
                    if regex_is_match(pattern, names.last()) {
                        assert(now == before.push(names.last()));
                        assert(now[j] == before[j]);
                    } else {
                        assert(now == before);
                    }
                    assert(now[j] == x);
                } else {
                    assert(x == names.last());
                    assert(now[now.len() - 1] == x);
                }
            }
        }
    }
}

/// Matching keeps the order of the names: the matches in `a` followed by
/// `b` are those in `a`, then those in `b`; a single name is kept exactly
/// when the pattern matches it.
pub proof fn law_matching_keeps_order(pattern: Seq<char>, a: Seq<Seq<char>>, b: Seq<Seq<char>>, name: Seq<char>)
    ensures
        matching(pattern, a + b) == matching(pattern, a) + matching(pattern, b),
        matching(pattern, seq![name]) == (if regex_is_match(pattern, name) {
            seq![name]
        } else {
            Seq::<Seq<char>>::empty()
        }),
    decreases b.len(),
{
    let one = seq![name];
    assert(one.drop_last() =~= Seq::<Seq<char>>::empty());
    assert(one.last() == name);
    assert(matching(pattern, Seq::<Seq<char>>::empty()) == Seq::<Seq<char>>::empty());
    if regex_is_match(pattern, name) {
        assert(matching(pattern, one) =~= seq![name]);
    } else {
        assert(matching(pattern, one) =~= Seq::<Seq<char>>::empty());
    }
    if b.len() == 0 {
        assert(a + b =~= a);
        assert(matching(pattern, a) + matching(pattern, b) =~= matching(pattern, a));
    } else {
        law_matching_keeps_order(pattern, a, b.drop_last(), name);
        assert((a + b).drop_last() =~= a + b.drop_last());
        assert((a + b).last() == b.last());
        if regex_is_match(pattern, b.last()) {
            assert(matching(pattern, a) + matching(pattern, b) =~= (matching(pattern, a)
                + matching(pattern, b.drop_last())).push(b.last()));
        } else {
            assert(matching(pattern, a) + matching(pattern, b) =~= matching(pattern, a)
                + matching(pattern, b.drop_last()));
        }
    }
}

impl Pattern {
    /// The names, in their order, in which the pattern matches.
    pub fn matching(&self, names: &Vec<String>) -> (r: Vec<String>)
        ensures
            r.deep_view() == matching(self.source(), names.deep_view()),
    {
        let mut r: Vec<String> = Vec::new();
        let mut i: usize = 0;
        while i < names.len()
            invariant
                i <= names.len(),
                r.deep_view() == matching(self.source(), names.deep_view().take(i as int)),
            decreases names.len() - i,
        {
            proof {
                assert(names.deep_view().take(i + 1).drop_last() =~= names.deep_view().take(i as int));
            }
            if self.is_match(names[i].as_str()) {
                r.push(names[i].clone());
            }
            i = i + 1;
        }
        proof {
            assert(names.deep_view().take(names.len() as int) =~= names.deep_view());
        }
        r
    }
}

/// Compiles each pattern in turn; `None` when one of them does not compile.
pub fn compile_all(sources: &Vec<String>) -> (r: Option<Vec<Pattern>>)
    ensures
        r is Some <==> all_compile(sources.deep_view()),
        r matches Some(ps) ==> ps.len() == sources.len() && forall|i: int|
            0 <= i < ps.len() ==> #[trigger] ps[i].source() == sources.deep_view()[i],
{
    let mut ps: Vec<Pattern> = Vec::new();
    let mut i: usize = 0;
    while i < sources.len()
        invariant
            i <= sources.len(),
            ps.len() == i,
            forall|j: int| 0 <= j < i ==> #[trigger] ps[j].source() == sources.deep_view()[j],
            all_compile(sources.deep_view().take(i as int)),
        decreases sources.len() - i,
    {
        match Pattern::compile(sources[i].as_str()) {
            Some(p) => {
                ps.push(p);
            },
            None => {
                assert(!regex_compiles(sources.deep_view()[i as int]));
                return None;
            },
        }
        proof {
            assert forall|j: int| 0 <= j < i + 1 implies regex_compiles(
                #[trigger] sources.deep_view().take(i + 1)[j],
            ) by {
                if j < i {
                    assert(sources.deep_view().take(i as int)[j] == sources.deep_view().take(i + 1)[j]);
                }
            }
        }
        i = i + 1;
    }
    assert(sources.deep_view().take(sources.len() as int) =~= sources.deep_view());
    Some(ps)
}

} // verus!
