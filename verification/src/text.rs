//! Building the texts that the bot shows.
use serenity::utils::MessageBuilder;
use vstd::prelude::*;

verus! {

/// Whether two texts hold the same characters.
pub fn str_eq(a: &str, b: &str) -> (r: bool)
    ensures
        r == (a@ == b@),
{
    a.to_owned() == b.to_owned()
}

/// The first `limit` characters of a text, or all of it where it is no longer.
pub open spec fn clipped(s: Seq<char>, limit: nat) -> Seq<char> {
    if s.len() <= limit {
        s
    } else {
        s.take(limit as int)
    }
}

/// Appends at most `limit` characters of `s`.
pub fn push_clipped(out: &mut String, s: &str, limit: usize)
    ensures
        final(out)@ == old(out)@ + clipped(s@, limit as nat),
{
    if s.unicode_len() <= limit {
        out.append(s);
    } else {
        out.append(s.substring_char(0, limit));
    }
}

/// The character of a decimal digit.
pub open spec fn digit(d: nat) -> char {
    ('0' as nat + d) as char
}

/// A number written in decimal, without leading zeros.
pub open spec fn decimal(n: nat) -> Seq<char>
    decreases n,
{
    if n < 10 {
        seq![digit(n)]
    } else {
        decimal(n / 10).push(digit(n % 10))
    }
}

/// A number written in decimal with at least two digits.
pub open spec fn two_digits(n: nat) -> Seq<char> {
    if n < 10 {
        seq!['0', digit(n)]
    } else {
        decimal(n)
    }
}

/// `String::push` appends one character.
pub assume_specification[ String::push ](s: &mut String, c: char)
    ensures
        final(s)@ == old(s)@.push(c),
;

/// Appends a number in decimal.
pub fn push_decimal(out: &mut String, n: u64)
    ensures
        final(out)@ == old(out)@ + decimal(n as nat),
    decreases n,
{
    if n >= 10 {
        push_decimal(out, n / 10);
    }
    let d: u8 = 48 + (n % 10) as u8;
    out.push(d as char);
    assert(out@ =~= old(out)@ + decimal(n as nat));
}

/// Appends a number in decimal with at least two digits.
pub fn push_two_digits(out: &mut String, n: u64)
    ensures
        final(out)@ == old(out)@ + two_digits(n as nat),
{
    if n < 10 {
        out.push('0');
    }
    push_decimal(out, n);
    assert(out@ =~= old(out)@ + two_digits(n as nat));
}

/// A text set as a code block in the given language.
pub open spec fn code_block(content: Seq<char>, language: Seq<char>) -> Seq<char> {
    "```"@ + language + "\n"@ + content + "\n```"@
}

/// Serenity's `MessageBuilder::push_codeblock` on an empty builder, then `build`: three
/// backticks, the language, a line feed, the content as it is, a line feed and three backticks.
#[verifier::external_body]
pub(crate) fn build_code_block(content: String, language: &str) -> (r: String)
    ensures
        r@ == code_block(content@, language@),
{
    MessageBuilder::new().push_codeblock(content, Some(language)).build()
}

/// A number in decimal ends with its last digit, and what stands before is the number without it;
/// every character is a digit.
pub proof fn law_decimal_goes_digit_by_digit(n: nat, d: nat)
    requires
        d < 10,
    ensures
        decimal(d) == seq![(48 + d) as char],
        n > 0 ==> decimal(n * 10 + d) == decimal(n).push((48 + d) as char),
        forall|i: int| 0 <= i < decimal(n).len() ==> '0' <= #[trigger] decimal(n)[i] <= '9',
    decreases n,
{
    if n > 0 {
        assert((n * 10 + d) / 10 == n);
        assert((n * 10 + d) % 10 == d);
    }
    if n >= 10 {
        law_decimal_goes_digit_by_digit(n / 10, n % 10);
    }
}

/// Up to ninety-nine two digits are the tens and the ones.
pub proof fn law_two_digits_are_tens_and_ones(n: nat)
    requires
        n < 100,
    ensures
        two_digits(n) == seq![(48 + n / 10) as char, (48 + n % 10) as char],
{
    if n >= 10 {
        law_decimal_goes_digit_by_digit(n / 10, n % 10);
        assert(decimal(n / 10) == seq![digit(n / 10)]);
        assert(two_digits(n) =~= seq![(48 + n / 10) as char, (48 + n % 10) as char]);
    }
}

/// From ten on a number is written as it is in decimal.
pub proof fn law_two_digits_lose_nothing(n: nat)
    requires
        n >= 10,
    ensures
        two_digits(n) == decimal(n),
{
}

/// A clipped text is the beginning of the text, as long as the limit allows.
pub proof fn law_clipped_text_is_a_beginning(s: Seq<char>, limit: nat)
    ensures
        clipped(s, limit).len() == if s.len() <= limit {
            s.len()
        } else {
            limit
        },
        forall|i: int|
            0 <= i < clipped(s, limit).len() ==> #[trigger] clipped(s, limit)[i] == s[i],
{
}

/// A code block opens with three backticks and its language on a line of their own; the content
/// follows as it is, and three backticks on a line of their own close it.
pub proof fn law_code_block_frames_its_content(content: Seq<char>, language: Seq<char>)
    ensures
        ({
            let block = code_block(content, language);
            let start = (4 + language.len()) as int;
            let end = start + content.len();
            &&& block.len() == end + 4
            &&& block[0] == '`' && block[1] == '`' && block[2] == '`'
            &&& block.subrange(3, start - 1) == language
            &&& block[start - 1] == '\n'
            &&& block.subrange(start, end) == content
            &&& block[end] == '\n'
            &&& block[end + 1] == '`' && block[end + 2] == '`' && block[end + 3] == '`'
        }),
{
    reveal_strlit("```");
    reveal_strlit("\n");
    reveal_strlit("\n```");
    let block = code_block(content, language);
    let start = (4 + language.len()) as int;
    assert(block.subrange(3, start - 1) =~= language);
    assert(block.subrange(start, start + content.len()) =~= content);
}

} // verus!
