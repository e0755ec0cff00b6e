//! A line filter: its command-line configuration and the search itself.
use vstd::prelude::*;
use vstd::std_specs::iter::IteratorSpec;

verus! {

/// What to search for, and where.
pub struct Config {
    pub query: String,
    pub filepath: String,
}

impl Config {
    /// Reads the configuration from the program's arguments: the first is the program's
    /// name, the second the query and the third the file's path; further ones are ignored.
    pub fn build(args: &Vec<String>) -> (r: Result<Config, &'static str>)
        ensures
            args.len() < 2 ==> r == Err::<Config, &'static str>("expected query string"),
            args.len() == 2 ==> r == Err::<Config, &'static str>("expected filepath"),
            args.len() > 2 ==> (r matches Ok(c) && c.query@ == args@[1]@ && c.filepath@
                == args@[2]@),
    {
        if args.len() < 2 {
            return Err("expected query string");
        }
        if args.len() < 3 {
            return Err("expected filepath");
        }
        let query = args[1].clone();
        let filepath = args[2].clone();
        Ok(Config { query, filepath })
    }
}

/// The characters of `s`, in order.
fn chars_of(s: &str) -> (r: Vec<char>)
    ensures
        r@ == s@,
{
    broadcast use vstd::string::group_string_axioms;
    let mut it = s.chars();
    let mut out: Vec<char> = Vec::new();
    loop
        invariant_except_break
            out@ + it.remaining() == s@,
            it.decrease() is Some,
        ensures
            out@ == s@,
        decreases it.decrease()->0,
    {
        match it.next() {
            Some(c) => {
                out.push(c);
            },
            None => {
                assert(out@ =~= s@);
                break;
            },
        }
    }
    out
}

/// `query` occurs in `line` as a contiguous run of characters.
pub open spec fn contains(line: Seq<char>, query: Seq<char>) -> bool {
    exists|i: int|
        0 <= i <= line.len() - query.len() && #[trigger] line.subrange(i, i + query.len()) == query
}

/// `line` without one trailing carriage return.
pub open spec fn trim_cr(line: Seq<char>) -> Seq<char> {
    if line.len() > 0 && line.last() == '\r' {
        line.drop_last()
    } else {
        line
    }
}

/// The lines of `s` from position `i` on, where the line in progress began at `start`.
/// A line ends at a newline, which it does not include, nor a carriage return just
/// before it; text after the last newline is a last line if it is not empty.
pub open spec fn lines_from(s: Seq<char>, start: int, i: int) -> Seq<Seq<char>>
    decreases s.len() - i,
{
    if i >= s.len() {
        if start < s.len() {
            seq![s.subrange(start, s.len() as int)]
        } else {
            seq![]
        }
    } else if s[i] == '\n' {
        seq![trim_cr(s.subrange(start, i))] + lines_from(s, i + 1, i + 1)
    } else {
        lines_from(s, start, i + 1)
    }
}

/// The lines of `content` that contain `query`, in order.
pub open spec fn matching_lines(query: Seq<char>, content: Seq<char>) -> Seq<Seq<char>> {
    lines_from(content, 0, 0).filter(|l: Seq<char>| contains(l, query))
}

fn matches_at(cs: &Vec<char>, pos: usize, q: &Vec<char>) -> (r: bool)
    requires
        pos + q.len() <= cs.len(),
    ensures
        r == (cs@.subrange(pos as int, pos + q.len()) == q@),
{
    let mut k: usize = 0;
    while k < q.len()
        invariant
            pos + q.len() <= cs.len(),
            k <= q.len(),
            forall|j: int| 0 <= j < k ==> cs@[pos + j] == q@[j],
        decreases q.len() - k,
    {
        if cs[pos + k] != q[k] {
            assert(cs@.subrange(pos as int, pos + q.len())[k as int] != q@[k as int]);
            return false;
        }
        k += 1;
    }
    assert(cs@.subrange(pos as int, pos + q.len()) =~= q@);
    true
}

fn contains_in(cs: &Vec<char>, from: usize, to: usize, q: &Vec<char>) -> (r: bool)
    requires
        from <= to <= cs.len(),
    ensures
        r == contains(cs@.subrange(from as int, to as int), q@),
{
    let ghost line = cs@.subrange(from as int, to as int);
    if q.len() > to - from {
        return false;
    }
    let last = to - q.len();
    let mut p: usize = from;
    loop
        invariant_except_break
            from <= p <= last,
            last + q.len() == to,
            to <= cs.len(),
            line == cs@.subrange(from as int, to as int),
            forall|i: int|
                0 <= i < p - from ==> #[trigger] line.subrange(i, i + q.len()) != q@,
        ensures
            forall|i: int|
                0 <= i <= line.len() - q.len() ==> #[trigger] line.subrange(i, i + q.len()) != q@,
        decreases last - p,
    {
        assert(line.subrange(p - from, p - from + q.len()) =~= cs@.subrange(p as int, p + q.len()));
        if matches_at(cs, p, q) {
            return true;
        }
        if p == last {
            break;
        }
        p += 1;
    }
    false
}

/// The lines of `content` that contain `query`, in order.
pub fn search<'a>(query: &str, content: &'a str) -> (r: Vec<&'a str>)
    ensures
        r@.map_values(|l: &str| l@) == matching_lines(query@, content@),
{
    broadcast use vstd::seq_lib::group_seq_properties;
    let q = chars_of(query);
    let cs = chars_of(content);
    let ghost s = content@;
    let ghost pred = |l: Seq<char>| contains(l, query@);
    let mut out: Vec<&'a str> = Vec::new();
    let mut start: usize = 0;
    let mut i: usize = 0;
    while i < cs.len()
        invariant
            cs@ == s,
            s == content@,
            q@ == query@,
            start <= i <= cs.len(),
            pred == (|l: Seq<char>| contains(l, query@)),
            out@.map_values(|l: &str| l@) + lines_from(s, start as int, i as int).filter(pred)
                == matching_lines(query@, s),
        decreases cs.len() - i,
    {
        let ghost before = out@.map_values(|l: &str| l@);
        if cs[i] == '\n' {
            let end = if i > start && cs[i - 1] == '\r' {
                i - 1
            } else {
                i
            };
            let ghost line = trim_cr(s.subrange(start as int, i as int));
            assert(line =~= s.subrange(start as int, end as int));
            let ghost rest = lines_from(s, i + 1, i + 1);
            assert(lines_from(s, start as int, i as int) == seq![line] + rest);
            proof {
                rest.lemma_filter_prepend(line, pred);
            }
            if contains_in(&cs, start, end, &q) {
                let piece = content.substring_char(start, end);
                out.push(piece);
                assert(out@.map_values(|l: &str| l@) =~= before + seq![line]);
            } else {
                assert(out@.map_values(|l: &str| l@) =~= before);
            }
            start = i + 1;
        } else {
            assert(lines_from(s, start as int, i as int) == lines_from(s, start as int, i + 1));
        }
        i += 1;
    }
    let ghost before = out@.map_values(|l: &str| l@);
    if start < cs.len() {
        let ghost line = s.subrange(start as int, s.len() as int);
        assert(lines_from(s, start as int, i as int) == seq![line]);
        assert(seq![line] =~= seq![line] + Seq::<Seq<char>>::empty());
        proof {
            Seq::<Seq<char>>::empty().lemma_filter_prepend(line, pred);
        }
        assert(Seq::<Seq<char>>::empty().filter(pred) =~= Seq::<Seq<char>>::empty()) by {
            reveal(Seq::filter);
        }
        if contains_in(&cs, start, cs.len(), &q) {
            out.push(content.substring_char(start, cs.len()));
            assert(out@.map_values(|l: &str| l@) =~= before + seq![line]);
        } else {
            assert(out@.map_values(|l: &str| l@) =~= before);
        }
    } else {
        assert(lines_from(s, start as int, i as int) == Seq::<Seq<char>>::empty());
        assert(Seq::<Seq<char>>::empty().filter(pred) =~= Seq::<Seq<char>>::empty()) by {
            reveal(Seq::filter);
        }
        assert(before + Seq::<Seq<char>>::empty() =~= before);
    }
    out
}

} // verus!
