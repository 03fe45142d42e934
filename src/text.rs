use vstd::prelude::*;

verus! {

/// The decimal digit `d` as a character.
pub open spec fn digit_char(d: nat) -> char {
    if d == 0 {
        '0'
    } else if d == 1 {
        '1'
    } else if d == 2 {
        '2'
    } else if d == 3 {
        '3'
    } else if d == 4 {
        '4'
    } else if d == 5 {
        '5'
    } else if d == 6 {
        '6'
    } else if d == 7 {
        '7'
    } else if d == 8 {
        '8'
    } else {
        '9'
    }
}

/// `n` written in decimal, without leading zeros.
pub open spec fn decimal(n: nat) -> Seq<char>
    decreases n,
{
    if n < 10 {
        seq![digit_char(n)]
    } else {
        decimal(n / 10).push(digit_char(n % 10))
    }
}

/// The parts one after another, with `sep` between two neighbours.
pub open spec fn joined(parts: Seq<Seq<char>>, sep: Seq<char>) -> Seq<char>
    decreases parts.len(),
{
    if parts.len() == 0 {
        Seq::empty()
    } else if parts.len() == 1 {
        parts[0]
    } else {
        joined(parts.drop_last(), sep) + sep + parts.last()
    }
}

/// What `{:?}` prints for a string: the text in double quotes, with escapes.
pub uninterp spec fn debug_text(s: Seq<char>) -> Seq<char>;

/// What `str::to_lowercase` gives for a text.
pub uninterp spec fn lower_of(s: Seq<char>) -> Seq<char>;

/// What `Path::extension` gives for a path written as text: `None` when the
/// file name has no extension, `Some(None)` when the extension is not text.
pub uninterp spec fn path_extension_of(s: Seq<char>) -> Option<Option<Seq<char>>>;

/// Relies on the `Debug` formatting of `str`: it depends on the text alone.
#[verifier::external_body]
pub(crate) fn debug_quoted(s: &str) -> (r: String)
    ensures
        r@ == debug_text(s@),
{
    format!("{:?}", s)
}

/// Relies on `str::to_lowercase`: it depends on the text alone.
#[verifier::external_body]
pub(crate) fn lowercase(s: &str) -> (r: String)
    ensures
        r@ == lower_of(s@),
{
    s.to_lowercase()
}

/// Relies on `Path::extension`, the part of the file name after its last dot,
/// and on `OsStr::to_str` to read that part as text.
#[verifier::external_body]
pub(crate) fn path_extension(s: &str) -> (r: Option<Option<String>>)
    ensures
        match r {
            None => path_extension_of(s@) is None,
            Some(None) => path_extension_of(s@) == Some(None::<Seq<char>>),
            Some(Some(e)) => path_extension_of(s@) == Some(Some(e@)),
        },
{
    std::path::Path::new(s).extension().map(|e| e.to_str().map(String::from))
}

fn digit_str(d: u32) -> (r: &'static str)
    requires
        d < 10,
    ensures
        r@ == seq![digit_char(d as nat)],
{
    proof {
        reveal_strlit("0");
        reveal_strlit("1");
        reveal_strlit("2");
        reveal_strlit("3");
        reveal_strlit("4");
        reveal_strlit("5");
        reveal_strlit("6");
        reveal_strlit("7");
        reveal_strlit("8");
        reveal_strlit("9");
    }
    if d == 0 {
        "0"
    } else if d == 1 {
        "1"
    } else if d == 2 {
        "2"
    } else if d == 3 {
        "3"
    } else if d == 4 {
        "4"
    } else if d == 5 {
        "5"
    } else if d == 6 {
        "6"
    } else if d == 7 {
        "7"
    } else if d == 8 {
        "8"
    } else {
        "9"
    }
}

/// Appends `n` in decimal to `out`.
pub fn push_decimal(out: &mut String, n: u32)
    ensures
        final(out)@ == old(out)@ + decimal(n as nat),
    decreases n,
{
    if n >= 10 {
        push_decimal(out, n / 10);
    }
    out.append(digit_str(n % 10));
    assert(decimal(n as nat) == if n < 10 {
        seq![digit_char(n as nat)]
    } else {
        decimal((n / 10) as nat).push(digit_char((n % 10) as nat))
    });
    assert(final(out)@ =~= old(out)@ + decimal(n as nat));
}

/// The identifiers in decimal, separated by commas: a set for a fetch.
pub open spec fn sequence_set_text(ids: Seq<u32>) -> Seq<char> {
    joined(ids.map_values(|n: u32| decimal(n as nat)), ","@)
}

/// Writes the identifiers as a comma-separated list, in the order given.
pub fn sequence_set(ids: &Vec<u32>) -> (r: String)
    ensures
        r@ == sequence_set_text(ids@),
{
    let mut r = String::new();
    let mut i: usize = 0;
    proof {
        reveal_strlit(",");
    }
    while i < ids.len()
        invariant
            0 <= i <= ids.len(),
            r@ == sequence_set_text(ids@.subrange(0, i as int)),
        decreases ids.len() - i,
    {
        let ghost before = r@;
        if i > 0 {
            r.append(",");
        }
        push_decimal(&mut r, ids[i]);
        proof {
            let p = ids@.subrange(0, i + 1).map_values(|n: u32| decimal(n as nat));
            assert(p.drop_last() =~= ids@.subrange(0, i as int).map_values(
                |n: u32| decimal(n as nat),
            ));
            assert(r@ =~= sequence_set_text(ids@.subrange(0, i + 1)));
        }
        i = i + 1;
    }
    assert(ids@.subrange(0, i as int) =~= ids@);
    r
}

/// A character that separates path components.
pub open spec fn is_separator(c: char) -> bool {
    c == '/' || c == '\\'
}

/// Where the last path component of `s` starts: just after its last
/// separator, or at the start.
pub open spec fn component_start(s: Seq<char>) -> nat
    decreases s.len(),
{
    if s.len() == 0 {
        0
    } else if is_separator(s.last()) {
        s.len()
    } else {
        component_start(s.drop_last())
    }
}

/// The last path component of `s`: what follows its last separator.
pub open spec fn last_component(s: Seq<char>) -> Seq<char> {
    s.subrange(component_start(s) as int, s.len() as int)
}

/// A name that stays inside a directory: not empty, not `.` or `..`, and
/// without separator.
pub open spec fn plain_file_name(n: Seq<char>) -> bool {
    &&& n.len() > 0
    &&& n != "."@
    &&& n != ".."@
    &&& forall|i: int| 0 <= i < n.len() ==> !is_separator(n[i])
}

/// The last component holds no separator.
pub proof fn lemma_last_component_plain(s: Seq<char>)
    ensures
        component_start(s) <= s.len(),
        forall|i: int| 0 <= i < last_component(s).len() ==> !is_separator(last_component(s)[i]),
    decreases s.len(),
{
    if s.len() > 0 && !is_separator(s.last()) {
        lemma_last_component_plain(s.drop_last());
        let k = component_start(s) as int;
        assert forall|i: int| 0 <= i < last_component(s).len() implies !is_separator(
            last_component(s)[i],
        ) by {
            if k + i < s.len() - 1 {
                assert(last_component(s)[i] == last_component(s.drop_last())[i]);
            }
        }
    }
}

fn component_start_of(s: &str) -> (k: usize)
    ensures
        k as nat == component_start(s@),
{
    let n = s.unicode_len();
    let mut i = n;
    assert(s@.subrange(0, n as int) =~= s@);
    while i > 0
        invariant
            i <= n,
            n == s@.len(),
            component_start(s@.subrange(0, i as int)) == component_start(s@),
        decreases i,
    {
        let c = s.get_char(i - 1);
        assert(s@.subrange(0, i as int).last() == c);
        if c == '/' || c == '\\' {
            return i;
        }
        assert(s@.subrange(0, i as int).drop_last() =~= s@.subrange(0, i - 1));
        i = i - 1;
    }
    i
}

/// The last path component of a name: what follows its last `/` or `\`.
pub fn last_component_of(s: &str) -> (r: String)
    ensures
        r@ == last_component(s@),
{
    let k = component_start_of(s);
    proof {
        lemma_last_component_plain(s@);
    }
    let n = s.unicode_len();
    String::from_str(s.substring_char(k, n))
}

} // verus!
