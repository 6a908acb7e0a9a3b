use vstd::prelude::*;

verus! {

/// Relies on String::push: appends one character to the string.
#[verifier::external_body]
fn push_char(s: &mut String, c: char)
    ensures
        final(s)@ == old(s)@.push(c),
{
    s.push(c);
}

/// The punctuation that a title loses on its way into a branch name.
pub open spec fn spec_removed_char(c: char) -> bool {
    c == ',' || c == '.' || c == '?' || c == '!'
}

/// What one title character contributes to the slug: nothing for the removed
/// punctuation, a hyphen for a space, itself otherwise.
pub open spec fn spec_slug_char(c: char) -> Seq<char> {
    if spec_removed_char(c) {
        Seq::empty()
    } else if c == ' ' {
        seq!['-']
    } else {
        seq![c]
    }
}

/// The slug of a title: spaces become hyphens and the fixed punctuation set
/// is removed; everything else passes through unchanged.
pub open spec fn spec_slug(title: Seq<char>) -> Seq<char>
    decreases title.len(),
{
    if title.len() == 0 {
        Seq::empty()
    } else {
        spec_slug(title.drop_last()) + spec_slug_char(title.last())
    }
}

/// Turns a title into a branch-name-safe fragment.
pub fn slugify(title: &str) -> (r: String)
    ensures
        r@ == spec_slug(title@),
{
    let n: usize = title.unicode_len();
    let mut out = String::new();
    let mut j: usize = 0;
    while j < n
        invariant
            0 <= j <= n == title@.len(),
            out@ == spec_slug(title@.take(j as int)),
        decreases n - j,
    {
        let c = title.get_char(j);
        if c == ',' || c == '.' || c == '?' || c == '!' {
            // removed outright
        } else if c == ' ' {
            push_char(&mut out, '-');
        } else {
            push_char(&mut out, c);
        }
        proof {
            assert(title@.take(j as int + 1).drop_last() =~= title@.take(j as int));
            assert(title@.take(j as int + 1).last() == title@[j as int]);
            assert(out@ =~= spec_slug(title@.take(j as int + 1)));
        }
        j += 1;
    }
    proof {
        assert(title@.take(n as int) =~= title@);
    }
    out
}

/// The character for one decimal digit.
pub open spec fn spec_digit_char(d: int) -> char {
    if d == 0 {
        '0'
    } else if d == 1 {
        '1'
    } else if d == 2 {
        '2'
    } else if d == 3 {
        '3'
    } else if d == 4 {
        '4'
    } else if d == 5 {
        '5'
    } else if d == 6 {
        '6'
    } else if d == 7 {
        '7'
    } else if d == 8 {
        '8'
    } else {
        '9'
    }
}

/// The decimal numeral of a non-negative number, most significant digit
/// first, without leading zeros (a single zero for 0).
pub open spec fn spec_decimal(n: int) -> Seq<char>
    decreases n,
{
    if n < 10 {
        seq![spec_digit_char(n)]
    } else {
        spec_decimal(n / 10) + seq![spec_digit_char(n % 10)]
    }
}

/// The numeral is one digit exactly below 10, at most two exactly below 100,
/// and never empty.
pub proof fn lemma_decimal_len(n: int)
    requires
        0 <= n,
    ensures
        spec_decimal(n).len() >= 1,
        n < 10 <==> spec_decimal(n).len() == 1,
        n < 100 <==> spec_decimal(n).len() <= 2,
    decreases n,
{
    if n >= 10 {
        lemma_decimal_len(n / 10);
    }
}

fn digit_char_of(d: u64) -> (c: char)
    requires
        d < 10,
    ensures
        c == spec_digit_char(d as int),
{
    if d == 0 {
        '0'
    } else if d == 1 {
        '1'
    } else if d == 2 {
        '2'
    } else if d == 3 {
        '3'
    } else if d == 4 {
        '4'
    } else if d == 5 {
        '5'
    } else if d == 6 {
        '6'
    } else if d == 7 {
        '7'
    } else if d == 8 {
        '8'
    } else {
        '9'
    }
}

/// Appends the decimal numeral of `n`.
fn push_decimal(out: &mut String, n: u64)
    ensures
        final(out)@ == old(out)@ + spec_decimal(n as int),
    decreases n,
{
    if n >= 10 {
        push_decimal(out, n / 10);
    }
    let d = digit_char_of(n % 10);
    push_char(out, d);
    proof {
        if n < 10 {
            assert(old(out)@ + spec_decimal(n as int) =~= old(out)@.push(spec_digit_char(n as int)));
        } else {
            assert(old(out)@ + spec_decimal(n as int) =~= (old(out)@ + spec_decimal(n as int / 10)).push(
                spec_digit_char(n as int % 10),
            ));
        }
    }
}

/// The padded numeral of an id: its decimal numeral, widened with leading
/// zeros to at least three digits.
pub open spec fn spec_padded_number(n: int) -> Seq<char> {
    let ds = spec_decimal(n);
    if ds.len() == 1 {
        seq!['0', '0'] + ds
    } else if ds.len() == 2 {
        seq!['0'] + ds
    } else {
        ds
    }
}

/// The branch name for a proposal: the id zero-padded to at least three
/// digits, a hyphen, and the slug of the title.
pub open spec fn spec_branch_name(id: int, title: Seq<char>) -> Seq<char> {
    spec_padded_number(id) + seq!['-'] + spec_slug(title)
}

/// Builds the branch name for a proposal with the given id and title.
pub fn proposal_branch_name(id: u64, title: &str) -> (r: String)
    ensures
        r@ == spec_branch_name(id as int, title@),
{
    let mut out = String::new();
    if id < 10 {
        push_char(&mut out, '0');
        push_char(&mut out, '0');
    } else if id < 100 {
        push_char(&mut out, '0');
    }
    push_decimal(&mut out, id);
    push_char(&mut out, '-');
    let slug = slugify(title);
    out.append(slug.as_str());
    proof {
        lemma_decimal_len(id as int);
        assert(out@ =~= spec_branch_name(id as int, title@));
    }
    out
}

} // verus!
