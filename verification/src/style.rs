//! Terminal styling of report text, done by the `colored` crate.
use vstd::prelude::*;

use colored::Colorize;

use crate::text::{lemma_newline_free_add, newline_free};

verus! {

/// The escape sequence that ends a styled text.
pub open spec fn reset_code() -> Seq<char> {
    seq!['\u{1b}', '[', '0', 'm']
}

/// The escape sequence that starts bold red text.
pub open spec fn red_bold_code() -> Seq<char> {
    seq!['\u{1b}', '[', '1', ';', '3', '1', 'm']
}

/// The escape sequence that starts bold green text.
pub open spec fn green_bold_code() -> Seq<char> {
    seq!['\u{1b}', '[', '1', ';', '3', '2', 'm']
}

/// The escape sequence that starts cyan text.
pub open spec fn cyan_code() -> Seq<char> {
    seq!['\u{1b}', '[', '3', '6', 'm']
}

/// The escape sequence that starts green text.
pub open spec fn green_code() -> Seq<char> {
    seq!['\u{1b}', '[', '3', '2', 'm']
}

/// `s` with `code` written after each reset sequence in it, scanning from the
/// left: how `colored` keeps the style on after a nested reset.
pub open spec fn escape_resets(s: Seq<char>, code: Seq<char>) -> Seq<char>
    decreases s.len(),
{
    if s.len() == 0 {
        s
    } else if reset_code().is_prefix_of(s) {
        reset_code() + code + escape_resets(s.skip(4), code)
    } else {
        seq![s[0]] + escape_resets(s.drop_first(), code)
    }
}

/// `out` is `s` as `colored` renders it with the style that `code` starts:
/// unchanged when colors are off; otherwise `code`, then `s` with `code`
/// written after each reset sequence in it, then the reset sequence. The
/// other forms arise when colors are switched off between the checks that
/// `colored` makes while rendering.
#[verifier::opaque]
pub open spec fn styled(code: Seq<char>, s: Seq<char>, out: Seq<char>) -> bool {
    ||| out == s
    ||| out == code + escape_resets(s, code) + reset_code()
    ||| out == code + s + reset_code()
    ||| out == escape_resets(s, code) + reset_code()
    ||| out == s + reset_code()
}


proof fn lemma_escape_resets_newline_free(s: Seq<char>, code: Seq<char>)
    requires
        newline_free(s),
        newline_free(code),
    ensures
        newline_free(escape_resets(s, code)),
    decreases s.len(),
{
    if s.len() > 0 {
        if reset_code().is_prefix_of(s) {
            let rest = s.skip(4);
            assert forall|i: int| 0 <= i < rest.len() implies #[trigger] rest[i] != '\n' by {
                assert(rest[i] == s[i + 4]);
            }
            lemma_escape_resets_newline_free(rest, code);
            lemma_newline_free_add(reset_code(), code);
            lemma_newline_free_add(reset_code() + code, escape_resets(rest, code));
        } else {
            let rest = s.drop_first();
            assert forall|i: int| 0 <= i < rest.len() implies #[trigger] rest[i] != '\n' by {
                assert(rest[i] == s[i + 1]);
            }
            lemma_escape_resets_newline_free(rest, code);
            assert(s[0] != '\n');
            lemma_newline_free_add(seq![s[0]], escape_resets(rest, code));
        }
    }
}

/// Styling a text without newlines adds none.
pub proof fn lemma_styled_newline_free(code: Seq<char>, s: Seq<char>, out: Seq<char>)
    requires
        styled(code, s, out),
        newline_free(s),
        newline_free(code),
    ensures
        newline_free(out),
{
    reveal(styled);
    lemma_escape_resets_newline_free(s, code);
    lemma_newline_free_add(code, s);
    lemma_newline_free_add(code + s, reset_code());
    lemma_newline_free_add(code, escape_resets(s, code));
    lemma_newline_free_add(code + escape_resets(s, code), reset_code());
    lemma_newline_free_add(escape_resets(s, code), reset_code());
    lemma_newline_free_add(s, reset_code());
}

/// `s.red().bold().to_string()` from `colored`. Whether the escape codes are
/// written depends on the environment (`CLICOLOR`, `CLICOLOR_FORCE`, a
/// manual override); the contract states only what holds either way.
#[verifier::external_body]
pub(crate) fn red_bold(s: &str) -> (res: String)
    ensures
        styled(red_bold_code(), s@, res@),
{
    s.red().bold().to_string()
}

/// `s.green().bold().to_string()` from `colored`; see `red_bold`.
#[verifier::external_body]
pub(crate) fn green_bold(s: &str) -> (res: String)
    ensures
        styled(green_bold_code(), s@, res@),
{
    s.green().bold().to_string()
}

/// `s.cyan().to_string()` from `colored`; see `red_bold`.
#[verifier::external_body]
pub(crate) fn cyan(s: &str) -> (res: String)
    ensures
        styled(cyan_code(), s@, res@),
{
    s.cyan().to_string()
}

/// `s.green().to_string()` from `colored`; see `red_bold`.
#[verifier::external_body]
pub(crate) fn green(s: &str) -> (res: String)
    ensures
        styled(green_code(), s@, res@),
{
    s.green().to_string()
}

} // verus!
