use vstd::prelude::*;
use crate::settings::Settings;

verus! {

/// The shell that interprets the preview command.
#[derive(PartialEq, Eq, Structural, Clone, Copy, Debug)]
pub enum Shell {
    /// A POSIX `sh`.
    Posix,
    /// Windows PowerShell.
    PowerShell,
}

pub open spec fn views(v: Seq<String>) -> Seq<Seq<char>> {
    v.map_values(|a: String| a@)
}

/// `flag` when `on`, nothing otherwise.
pub open spec fn flag_if(on: bool, flag: Seq<char>) -> Seq<Seq<char>> {
    if on {
        seq![flag]
    } else {
        seq![]
    }
}

/// The search flags that the toggles of `s` switch on, in their fixed order.
pub open spec fn toggle_flags(s: Settings) -> Seq<Seq<char>> {
    flag_if(s.ignore_case, "-i"@) + flag_if(s.hidden, "--hidden"@) + flag_if(s.follow, "-L"@)
        + flag_if(s.no_ignore, "-uu"@)
}

/// The flags of the main search, up to the end-of-flags marker.
pub open spec fn search_flags(s: Settings) -> Seq<Seq<char>> {
    seq!["-l"@, "--color=never"@, "--no-messages"@] + toggle_flags(s)
}

/// The full argument list of the search engine.
pub open spec fn search_args(s: Settings) -> Seq<Seq<char>> {
    search_flags(s) + seq!["--"@, s.pattern@, s.path@]
}

fn push_lit(v: &mut Vec<String>, lit: &str)
    ensures
        views(final(v)@) == views(old(v)@).push(lit@),
{
    v.push(String::from_str(lit));
    assert(views(v@) =~= views(old(v)@).push(lit@));
}

fn push_string(v: &mut Vec<String>, a: String)
    ensures
        views(final(v)@) == views(old(v)@).push(a@),
{
    v.push(a);
    assert(views(v@) =~= views(old(v)@).push(a@));
}

fn extend_strings(v: &mut Vec<String>, t: &Vec<String>)
    ensures
        views(final(v)@) == views(old(v)@) + views(t@),
{
    let mut i: usize = 0;
    while i < t.len()
        invariant
            0 <= i <= t@.len(),
            views(v@) == views(old(v)@) + views(t@.subrange(0, i as int)),
        decreases t@.len() - i,
    {
        push_string(v, t[i].clone());
        assert(views(t@.subrange(0, i + 1)) =~= views(t@.subrange(0, i as int)).push(t@[i as int]@));
        i = i + 1;
    }
    assert(t@.subrange(0, t@.len() as int) =~= t@);
}

fn toggle_flag_list(s: &Settings) -> (r: Vec<String>)
    ensures
        views(r@) == toggle_flags(*s),
{
    let mut v: Vec<String> = Vec::new();
    assert(views(v@) =~= seq![]);
    if s.ignore_case {
        push_lit(&mut v, "-i");
    }
    assert(views(v@) =~= flag_if(s.ignore_case, "-i"@));
    if s.hidden {
        push_lit(&mut v, "--hidden");
    }
    assert(views(v@) =~= flag_if(s.ignore_case, "-i"@) + flag_if(s.hidden, "--hidden"@));
    if s.follow {
        push_lit(&mut v, "-L");
    }
    assert(views(v@) =~= flag_if(s.ignore_case, "-i"@) + flag_if(s.hidden, "--hidden"@)
        + flag_if(s.follow, "-L"@));
    if s.no_ignore {
        push_lit(&mut v, "-uu");
    }
    assert(views(v@) =~= toggle_flags(*s));
    v
}

/// Arguments of the search engine: list matching paths only, no colour, no
/// diagnostics, the toggled flags, then `--`, the pattern and the root.
pub fn build_rg_args(s: &Settings) -> (r: Vec<String>)
    ensures
        views(r@) == search_args(*s),
{
    let mut v: Vec<String> = Vec::new();
    push_lit(&mut v, "-l");
    push_lit(&mut v, "--color=never");
    push_lit(&mut v, "--no-messages");
    let t = toggle_flag_list(s);
    extend_strings(&mut v, &t);
    push_lit(&mut v, "--");
    push_string(&mut v, s.pattern.clone());
    push_string(&mut v, s.path.clone());
    assert(views(v@) =~= search_args(*s));
    v
}

// ---------------------------------------------------------------------------
// Text rendering

pub open spec fn digits() -> Seq<char> {
    "0123456789"@
}

/// The decimal notation of `n`.
pub open spec fn decimal(n: nat) -> Seq<char>
    decreases n,
{
    if n < 10 {
        digits().subrange(n as int, n + 1int)
    } else {
        decimal(n / 10) + digits().subrange((n % 10) as int, (n % 10) + 1int)
    }
}

/// Renders `n` in decimal.
pub fn decimal_string(n: usize) -> (r: String)
    ensures
        r@ == decimal(n as nat),
    decreases n,
{
    let d: &str = "0123456789";
    proof {
        reveal_strlit("0123456789");
    }
    if n < 10 {
        String::from_str(d.substring_char(n, n + 1))
    } else {
        let mut r = decimal_string(n / 10);
        r.append(d.substring_char(n % 10, n % 10 + 1));
        r
    }
}

/// `flags` written out, each preceded by one space.
pub open spec fn spaced(flags: Seq<Seq<char>>) -> Seq<char>
    decreases flags.len(),
{
    if flags.len() == 0 {
        seq![]
    } else {
        spaced(flags.drop_last()) + " "@ + flags.last()
    }
}

/// The characters PowerShell reads as a single quote: the apostrophe and the
/// four typographic single quotation marks U+2018 to U+201B.
pub open spec fn powershell_single_quote(c: char) -> bool {
    c == '\'' || c == '\u{2018}' || c == '\u{2019}' || c == '\u{201A}' || c == '\u{201B}'
}

fn is_powershell_single_quote(c: char) -> (r: bool)
    ensures
        r == powershell_single_quote(c),
{
    c == '\'' || c == '\u{2018}' || c == '\u{2019}' || c == '\u{201A}' || c == '\u{201B}'
}

/// The characters that keep a special meaning inside POSIX double quotes
/// and that a backslash there turns into themselves.
pub open spec fn double_quote_special(c: char) -> bool {
    c == '$' || c == '`' || c == '"' || c == '\\'
}

/// What stands in place of one character of the pattern.
///
/// The POSIX command is framed as `sh -c "..."`, so the pattern goes through
/// two layers: the outer double quotes, then the single quotes of the inner
/// command. A single quote leaves the inner single-quoted span, is written
/// double-quoted, and reopens the span, each inner `"` carrying a backslash
/// for the outer layer; the characters special inside double quotes carry a
/// backslash. PowerShell takes any of its five single-quote characters
/// twice in a row inside a single-quoted span as one of them, so each is
/// doubled.
pub open spec fn escape_char(shell: Shell, c: char) -> Seq<char> {
    match shell {
        Shell::Posix => if c == '\'' {
            "'\\\"'\\\"'"@
        } else if double_quote_special(c) {
            seq!['\\', c]
        } else {
            seq![c]
        },
        Shell::PowerShell => if powershell_single_quote(c) {
            seq![c, c]
        } else {
            seq![c]
        },
    }
}

/// The pattern escaped for `shell`, one character at a time.
pub open spec fn escaped(shell: Shell, p: Seq<char>) -> Seq<char>
    decreases p.len(),
{
    if p.len() == 0 {
        seq![]
    } else {
        escaped(shell, p.drop_last()) + escape_char(shell, p.last())
    }
}

/// The pattern as one single-quoted word of `shell`, escaped for the layers
/// around it.
pub open spec fn quoted_word(shell: Shell, p: Seq<char>) -> Seq<char> {
    "'"@ + escaped(shell, p) + "'"@
}

pub open spec fn preview_head(shell: Shell) -> Seq<char> {
    match shell {
        Shell::Posix => "sh -c \"rg"@,
        Shell::PowerShell => "powershell -NoProfile -Command rg"@,
    }
}

pub open spec fn preview_tail(shell: Shell) -> Seq<char> {
    match shell {
        Shell::Posix => " '{}' | head -n 200\""@,
        Shell::PowerShell => " '{}' | Select-Object -First 200"@,
    }
}

/// The flags of the preview search: colour, line numbers, bounded columns,
/// no diagnostics, the context size, then the same toggles as the main search.
pub open spec fn preview_flags(s: Settings) -> Seq<Seq<char>> {
    seq![
        "--color=always"@,
        "--line-number"@,
        "--max-columns=300"@,
        "--no-messages"@,
        "--context"@,
        decimal(s.preview_context as nat),
    ] + toggle_flags(s)
}

/// The preview command: the search run again on the one candidate `{}`,
/// cut to 200 lines.
pub open spec fn preview_text(s: Settings, shell: Shell) -> Seq<char> {
    preview_head(shell) + spaced(preview_flags(s)) + " -- "@ + quoted_word(shell, s.pattern@)
        + preview_tail(shell)
}

fn append_escaped(out: &mut String, shell: Shell, p: &str)
    ensures
        final(out)@ == old(out)@ + escaped(shell, p@),
{
    let n = p.unicode_len();
    let mut i: usize = 0;
    while i < n
        invariant
            n == p@.len(),
            i <= n,
            out@ == old(out)@ + escaped(shell, p@.subrange(0, i as int)),
        decreases n - i,
    {
        let c = p.get_char(i);
        proof {
            reveal_strlit("'\\\"'\\\"'");
            reveal_strlit("\\$");
            reveal_strlit("\\`");
            reveal_strlit("\\\"");
            reveal_strlit("\\\\");
        }
        match shell {
            Shell::Posix => {
                if c == '\'' {
                    out.append("'\\\"'\\\"'");
                } else if c == '$' {
                    out.append("\\$");
                } else if c == '`' {
                    out.append("\\`");
                } else if c == '"' {
                    out.append("\\\"");
                } else if c == '\\' {
                    out.append("\\\\");
                } else {
                    out.append(p.substring_char(i, i + 1));
                }
            },
            Shell::PowerShell => {
                if is_powershell_single_quote(c) {
                    out.append(p.substring_char(i, i + 1));
                }
                out.append(p.substring_char(i, i + 1));
            },
        }
        assert(p@.subrange(0, i + 1).drop_last() =~= p@.subrange(0, i as int));
        assert(out@ =~= old(out)@ + escaped(shell, p@.subrange(0, i + 1)));
        i = i + 1;
    }
    assert(p@.subrange(0, n as int) =~= p@);
}

fn append_spaced(out: &mut String, flags: &Vec<String>)
    ensures
        final(out)@ == old(out)@ + spaced(views(flags@)),
{
    let mut i: usize = 0;
    while i < flags.len()
        invariant
            i <= flags@.len(),
            out@ == old(out)@ + spaced(views(flags@.subrange(0, i as int))),
        decreases flags@.len() - i,
    {
        out.append(" ");
        out.append(flags[i].as_str());
        assert(views(flags@.subrange(0, i + 1)).drop_last() =~= views(
            flags@.subrange(0, i as int),
        ));
        assert(out@ =~= old(out)@ + spaced(views(flags@.subrange(0, i + 1))));
        i = i + 1;
    }
    assert(flags@.subrange(0, flags@.len() as int) =~= flags@);
}

/// The command the selector runs to preview one candidate file.
///
/// The pattern is quoted so that the shell reads it back unchanged, every
/// character included, for POSIX. For PowerShell that holds for patterns
/// without `"`; a `"` passes through the command line of `powershell.exe`,
/// whose handling is not covered here.
pub fn preview_cmd(s: &Settings, shell: Shell) -> (r: String)
    ensures
        r@ == preview_text(*s, shell),
{
    let mut flags: Vec<String> = Vec::new();
    push_lit(&mut flags, "--color=always");
    push_lit(&mut flags, "--line-number");
    push_lit(&mut flags, "--max-columns=300");
    push_lit(&mut flags, "--no-messages");
    push_lit(&mut flags, "--context");
    let ctx = decimal_string(s.preview_context);
    push_string(&mut flags, ctx);
    let t = toggle_flag_list(s);
    extend_strings(&mut flags, &t);
    assert(views(flags@) =~= preview_flags(*s));
    let mut out = match shell {
        Shell::Posix => String::from_str("sh -c \"rg"),
        Shell::PowerShell => String::from_str("powershell -NoProfile -Command rg"),
    };
    append_spaced(&mut out, &flags);
    out.append(" -- '");
    append_escaped(&mut out, shell, s.pattern.as_str());
    out.append("'");
    match shell {
        Shell::Posix => out.append(" '{}' | head -n 200\""),
        Shell::PowerShell => out.append(" '{}' | Select-Object -First 200"),
    }
    proof {
        reveal_strlit(" -- '");
        reveal_strlit(" -- ");
        reveal_strlit("'");
    }
    assert(out@ =~= preview_text(*s, shell));
    out
}

/// The argument list of the selector engine.
pub open spec fn selector_args(s: Settings, shell: Shell) -> Seq<Seq<char>> {
    seq!["--ansi"@, "--prompt"@, "files> "@, "--reverse"@, "--expect"@, "enter"@]
        + flag_if(s.multi, "--multi"@) + if s.no_preview {
        seq![]
    } else {
        seq!["--preview"@, preview_text(s, shell), "--preview-window"@, s.preview_width@]
    }
}

/// Arguments of the selector engine: colour passthrough, the prompt, reversed
/// layout and the confirming key reported, multi-select when asked for, and
/// the preview pane unless it is switched off.
pub fn build_sk_args(s: &Settings, shell: Shell) -> (r: Vec<String>)
    ensures
        views(r@) == selector_args(*s, shell),
{
    let mut v: Vec<String> = Vec::new();
    push_lit(&mut v, "--ansi");
    push_lit(&mut v, "--prompt");
    push_lit(&mut v, "files> ");
    push_lit(&mut v, "--reverse");
    push_lit(&mut v, "--expect");
    push_lit(&mut v, "enter");
    if s.multi {
        push_lit(&mut v, "--multi");
    }
    if !s.no_preview {
        push_lit(&mut v, "--preview");
        push_string(&mut v, preview_cmd(s, shell));
        push_lit(&mut v, "--preview-window");
        push_string(&mut v, s.preview_width.clone());
    }
    assert(views(v@) =~= selector_args(*s, shell));
    v
}

// ---------------------------------------------------------------------------
// Laws

/// Building the search arguments depends on the settings alone: two settings
/// that agree on the pattern, the root and the toggles give the same list, and
/// that list is always the three fixed flags, the toggled flags in the order
/// case, hidden, follow, ignore, then `--`, the pattern and the root.
pub proof fn lemma_search_args_stable(s1: Settings, s2: Settings)
    requires
        s1.pattern@ == s2.pattern@,
        s1.path@ == s2.path@,
        s1.ignore_case == s2.ignore_case,
        s1.hidden == s2.hidden,
        s1.follow == s2.follow,
        s1.no_ignore == s2.no_ignore,
    ensures
        search_args(s1) == search_args(s2),
        search_args(s1).len() == 6 + toggle_flags(s1).len(),
        search_args(s1).subrange(0, 3) == seq!["-l"@, "--color=never"@, "--no-messages"@],
        search_args(s1).subrange(3, 3int + toggle_flags(s1).len()) == toggle_flags(s1),
        search_args(s1).last() == s1.path@,
{
    assert(search_args(s1) =~= search_args(s2));
    assert(search_args(s1).subrange(0, 3) =~= seq!["-l"@, "--color=never"@, "--no-messages"@]);
    assert(search_args(s1).subrange(3, 3int + toggle_flags(s1).len()) =~= toggle_flags(s1));
}

/// Each toggle puts its flag among the search flags exactly when it is on,
/// and a toggle that is off leaves no flag of its own behind.
pub proof fn lemma_toggle_flags_exact(s: Settings)
    ensures
        toggle_flags(s).contains("-i"@) <==> s.ignore_case,
        toggle_flags(s).contains("--hidden"@) <==> s.hidden,
        toggle_flags(s).contains("-L"@) <==> s.follow,
        toggle_flags(s).contains("-uu"@) <==> s.no_ignore,
        toggle_flags(s).len() == (if s.ignore_case { 1int } else { 0 }) + (if s.hidden { 1int } else { 0 }) + (if s.follow { 1int } else { 0 }) + (if s.no_ignore { 1int } else { 0 }),
        search_flags(s).contains("-i"@) <==> s.ignore_case,
        search_flags(s).contains("--hidden"@) <==> s.hidden,
        search_flags(s).contains("-L"@) <==> s.follow,
        search_flags(s).contains("-uu"@) <==> s.no_ignore,
{
    reveal_strlit("-i");
    reveal_strlit("--hidden");
    reveal_strlit("-L");
    reveal_strlit("-uu");
    reveal_strlit("-l");
    reveal_strlit("--color=never");
    reveal_strlit("--no-messages");
    let t = toggle_flags(s);
    let f = search_flags(s);
    let fixed = seq!["-l"@, "--color=never"@, "--no-messages"@];
    assert(f =~= fixed + t);
    if s.ignore_case {
        assert(t[0] == "-i"@);
    }
    if t.contains("-i"@) {
        let k = choose|k: int| 0 <= k < t.len() && t[k] == "-i"@;
        assert(t[k] == "-i"@);
    }
    if t.contains("--hidden"@) {
        let k = choose|k: int| 0 <= k < t.len() && t[k] == "--hidden"@;
        assert(t[k] == "--hidden"@);
    }
    if s.hidden {
        let k = if s.ignore_case { 1int } else { 0 };
        assert(t[k] == "--hidden"@);
    }
    if t.contains("-L"@) {
        let k = choose|k: int| 0 <= k < t.len() && t[k] == "-L"@;
        assert(t[k] == "-L"@);
    }
    if s.follow {
        let k = (if s.ignore_case { 1int } else { 0 }) + (if s.hidden { 1int } else { 0 });
        assert(t[k] == "-L"@);
    }
    if t.contains("-uu"@) {
        let k = choose|k: int| 0 <= k < t.len() && t[k] == "-uu"@;
        assert(t[k] == "-uu"@);
    }
    if s.no_ignore {
        let k = (if s.ignore_case { 1int } else { 0 }) + (if s.hidden { 1int } else { 0 }) + (if s.follow { 1int } else { 0 });
        assert(t[k] == "-uu"@);
    }
    assert forall|x: Seq<char>| f.contains(x) <==> (fixed.contains(x) || t.contains(x)) by {
        if f.contains(x) {
            let k = choose|k: int| 0 <= k < f.len() && f[k] == x;
            if k >= 3 {
                assert(t[k - 3] == x);
            } else {
                assert(fixed[k] == x);
            }
        }
        if t.contains(x) {
            let k = choose|k: int| 0 <= k < t.len() && t[k] == x;
            assert(f[k + 3] == x);
        }
        if fixed.contains(x) {
            let k = choose|k: int| 0 <= k < fixed.len() && fixed[k] == x;
            assert(f[k] == x);
        }
    }
    assert("-i"@[1] != "-l"@[1]);
    assert("-L"@[1] != "-l"@[1]);
    assert forall|k: int| 0 <= k < 3 implies fixed[k] != "-i"@ && fixed[k] != "--hidden"@
        && fixed[k] != "-L"@ && fixed[k] != "-uu"@ by {
        if k == 0 {
            assert(fixed[k][1] != "-i"@[1]);
            assert(fixed[k][1] != "-L"@[1]);
            assert(fixed[k].len() != "--hidden"@.len());
            assert(fixed[k].len() != "-uu"@.len());
        } else {
            assert(fixed[k].len() == 13);
        }
    }
}

/// The selector's toggles work the same way: multi-select adds its one flag
/// exactly when on, and the preview pane adds its four arguments exactly when
/// it is not switched off. With the preview off, neither preview flag nor the
/// preview command appears at all.
pub proof fn lemma_selector_toggles_exact(s: Settings, shell: Shell)
    ensures
        selector_args(s, shell).len() == 6 + (if s.multi { 1int } else { 0 }) + (if s.no_preview {
            0int
        } else {
            4
        }),
        s.multi ==> selector_args(s, shell)[6] == "--multi"@,
        !s.no_preview ==> ({
            let m = if s.multi { 1int } else { 0 };
            &&& selector_args(s, shell)[6 + m] == "--preview"@
            &&& selector_args(s, shell)[7 + m] == preview_text(s, shell)
            &&& selector_args(s, shell)[8 + m] == "--preview-window"@
            &&& selector_args(s, shell)[9 + m] == s.preview_width@
        }),
        s.no_preview ==> {
            &&& !selector_args(s, shell).contains("--preview"@)
            &&& !selector_args(s, shell).contains("--preview-window"@)
            &&& !selector_args(s, shell).contains(preview_text(s, shell))
        },
{
    if s.no_preview {
        reveal_strlit("--ansi");
        reveal_strlit("--prompt");
        reveal_strlit("files> ");
        reveal_strlit("--reverse");
        reveal_strlit("--expect");
        reveal_strlit("enter");
        reveal_strlit("--multi");
        reveal_strlit("--preview");
        reveal_strlit("--preview-window");
        reveal_strlit("sh -c \"rg");
        reveal_strlit("powershell -NoProfile -Command rg");
        let a = selector_args(s, shell);
        let pv = preview_text(s, shell);
        reveal_strlit(" '{}' | head -n 200\"");
        reveal_strlit(" '{}' | Select-Object -First 200");
        assert(pv.len() >= preview_head(shell).len() + preview_tail(shell).len());
        assert(pv.len() > 16);
        assert forall|k: int| 0 <= k < a.len() implies a[k] != "--preview"@ && a[k]
            != "--preview-window"@ && a[k] != pv by {
            if k == 3 {
                assert(a[k][2] != "--preview"@[2]);
            } else {
                assert(a[k].len() <= 9);
            }
        }
    }
}

/// Where a POSIX shell stands while reading a word.
pub enum QuoteState {
    Bare,
    InSingle,
    InDouble,
}

/// The characters a POSIX shell makes of a word (quote removal): single
/// quotes keep everything literally; inside double quotes a backslash
/// before `$`, backquote, `"` or backslash stands for that character and
/// one before a line feed joins the lines; outside quotes a backslash keeps
/// the next character. Expansions are not modelled: the words read here
/// hold no unescaped `$` or backquote inside double quotes.
pub open spec fn posix_unquote(s: Seq<char>, q: QuoteState) -> Seq<char>
    decreases s.len(),
{
    if s.len() == 0 {
        seq![]
    } else {
        let c = s[0];
        let rest = s.drop_first();
        match q {
            QuoteState::Bare => if c == '\\' && rest.len() > 0 {
                if rest[0] == '\n' {
                    posix_unquote(rest.drop_first(), QuoteState::Bare)
                } else {
                    seq![rest[0]] + posix_unquote(rest.drop_first(), QuoteState::Bare)
                }
            } else if c == '\'' {
                posix_unquote(rest, QuoteState::InSingle)
            } else if c == '"' {
                posix_unquote(rest, QuoteState::InDouble)
            } else {
                seq![c] + posix_unquote(rest, QuoteState::Bare)
            },
            QuoteState::InSingle => if c == '\'' {
                posix_unquote(rest, QuoteState::Bare)
            } else {
                seq![c] + posix_unquote(rest, QuoteState::InSingle)
            },
            QuoteState::InDouble => if c == '"' {
                posix_unquote(rest, QuoteState::Bare)
            } else if c == '\\' && rest.len() > 0 && double_quote_special(rest[0]) {
                seq![rest[0]] + posix_unquote(rest.drop_first(), QuoteState::InDouble)
            } else if c == '\\' && rest.len() > 0 && rest[0] == '\n' {
                posix_unquote(rest.drop_first(), QuoteState::InDouble)
            } else {
                seq![c] + posix_unquote(rest, QuoteState::InDouble)
            },
        }
    }
}

/// One character of the pattern as the inner command holds it: a single
/// quote closes the span, stands double-quoted, and reopens the span.
pub open spec fn single_quote_escape(c: char) -> Seq<char> {
    if c == '\'' {
        "'\"'\"'"@
    } else {
        seq![c]
    }
}

/// The pattern as the inner command holds it, between its single quotes.
pub open spec fn single_quote_escaped(p: Seq<char>) -> Seq<char>
    decreases p.len(),
{
    if p.len() == 0 {
        seq![]
    } else {
        single_quote_escape(p[0]) + single_quote_escaped(p.drop_first())
    }
}

/// The pattern's word in the inner command, once the outer double quotes
/// are gone.
pub open spec fn inner_word(p: Seq<char>) -> Seq<char> {
    "'"@ + single_quote_escaped(p) + "'"@
}

/// The characters PowerShell makes of a word written with single-quoted
/// spans. Any of its five single-quote characters opens or closes a span,
/// and two of them in a row inside a span stand for the second. The command
/// line of `powershell.exe` that carries the command is a layer of its own
/// and is not modelled: it may remove a `"`, so the round trip through
/// PowerShell is claimed only for patterns without one.
pub open spec fn powershell_unquote(s: Seq<char>, in_single: bool) -> Seq<char>
    decreases s.len(),
{
    if s.len() == 0 {
        seq![]
    } else {
        let c = s[0];
        if in_single {
            if powershell_single_quote(c) {
                if s.len() >= 2 && powershell_single_quote(s[1]) {
                    seq![s[1]] + powershell_unquote(s.subrange(2, s.len() as int), true)
                } else {
                    powershell_unquote(s.drop_first(), false)
                }
            } else {
                seq![c] + powershell_unquote(s.drop_first(), true)
            }
        } else if powershell_single_quote(c) {
            powershell_unquote(s.drop_first(), true)
        } else {
            seq![c] + powershell_unquote(s.drop_first(), false)
        }
    }
}

proof fn lemma_escaped_concat(shell: Shell, a: Seq<char>, b: Seq<char>)
    ensures
        escaped(shell, a + b) == escaped(shell, a) + escaped(shell, b),
    decreases b.len(),
{
    if b.len() == 0 {
        assert(a + b =~= a);
        assert(escaped(shell, a) + escaped(shell, b) =~= escaped(shell, a));
    } else {
        assert((a + b).drop_last() =~= a + b.drop_last());
        assert((a + b).last() == b.last());
        lemma_escaped_concat(shell, a, b.drop_last());
        assert(escaped(shell, a + b) =~= escaped(shell, a) + escaped(shell, b));
    }
}

proof fn lemma_escaped_first(shell: Shell, p: Seq<char>)
    requires
        p.len() > 0,
    ensures
        escaped(shell, p) == escape_char(shell, p[0]) + escaped(shell, p.drop_first()),
{
    assert(p =~= seq![p[0]] + p.drop_first());
    lemma_escaped_concat(shell, seq![p[0]], p.drop_first());
    assert(seq![p[0]].drop_last() =~= Seq::<char>::empty());
    assert(escaped(shell, Seq::<char>::empty()) == Seq::<char>::empty());
    assert(seq![p[0]].last() == p[0]);
    assert(escaped(shell, seq![p[0]]) == escaped(shell, Seq::<char>::empty()) + escape_char(
        shell,
        p[0],
    ));
    assert(escaped(shell, seq![p[0]]) =~= escape_char(shell, p[0]));
}

proof fn lemma_outer_char(c: char, x: Seq<char>)
    ensures
        posix_unquote(escape_char(Shell::Posix, c) + x, QuoteState::InDouble)
            == single_quote_escape(c) + posix_unquote(x, QuoteState::InDouble),
{
    let e = escape_char(Shell::Posix, c);
    let s = e + x;
    if c == '\'' {
        reveal_strlit("'\\\"'\\\"'");
        reveal_strlit("'\"'\"'");
        let s1 = s.drop_first();
        let s2 = s1.drop_first();
        let s3 = s2.drop_first();
        let s4 = s3.drop_first();
        let s5 = s4.drop_first();
        let s6 = s5.drop_first();
        assert(s1 =~= e.subrange(1, 7) + x);
        assert(s2 =~= e.subrange(2, 7) + x);
        assert(s3 =~= e.subrange(3, 7) + x);
        assert(s4 =~= e.subrange(4, 7) + x);
        assert(s5 =~= e.subrange(5, 7) + x);
        assert(s6 =~= e.subrange(6, 7) + x);
        assert(s6.drop_first() =~= x);
        assert(s[0] == '\'' && s1[0] == '\\' && s2[0] == '"' && s3[0] == '\'' && s4[0] == '\\'
            && s5[0] == '"' && s6[0] == '\'');
        assert(posix_unquote(s6, QuoteState::InDouble) == seq!['\''] + posix_unquote(
            x,
            QuoteState::InDouble,
        ));
        assert(posix_unquote(s4, QuoteState::InDouble) == seq!['"'] + posix_unquote(
            s6,
            QuoteState::InDouble,
        ));
        assert(posix_unquote(s3, QuoteState::InDouble) == seq!['\''] + posix_unquote(
            s4,
            QuoteState::InDouble,
        ));
        assert(posix_unquote(s1, QuoteState::InDouble) == seq!['"'] + posix_unquote(
            s3,
            QuoteState::InDouble,
        ));
        assert(posix_unquote(s, QuoteState::InDouble) == seq!['\''] + posix_unquote(
            s1,
            QuoteState::InDouble,
        ));
        assert(posix_unquote(s, QuoteState::InDouble) =~= single_quote_escape(c) + posix_unquote(
            x,
            QuoteState::InDouble,
        ));
    } else if double_quote_special(c) {
        let s1 = s.drop_first();
        assert(s1 =~= seq![c] + x);
        assert(s1.drop_first() =~= x);
        assert(s[0] == '\\' && s1[0] == c);
        assert(posix_unquote(s, QuoteState::InDouble) =~= single_quote_escape(c) + posix_unquote(
            x,
            QuoteState::InDouble,
        ));
    } else {
        assert(s.drop_first() =~= x);
        assert(s[0] == c);
        assert(posix_unquote(s, QuoteState::InDouble) =~= single_quote_escape(c) + posix_unquote(
            x,
            QuoteState::InDouble,
        ));
    }
}

proof fn lemma_outer_layer(p: Seq<char>, tail: Seq<char>)
    ensures
        posix_unquote(escaped(Shell::Posix, p) + tail, QuoteState::InDouble)
            == single_quote_escaped(p) + posix_unquote(tail, QuoteState::InDouble),
    decreases p.len(),
{
    if p.len() == 0 {
        assert(escaped(Shell::Posix, p) + tail =~= tail);
        assert(single_quote_escaped(p) + posix_unquote(tail, QuoteState::InDouble) =~= posix_unquote(
            tail,
            QuoteState::InDouble,
        ));
    } else {
        let x = escaped(Shell::Posix, p.drop_first()) + tail;
        lemma_escaped_first(Shell::Posix, p);
        assert(escaped(Shell::Posix, p) + tail =~= escape_char(Shell::Posix, p[0]) + x);
        lemma_outer_char(p[0], x);
        lemma_outer_layer(p.drop_first(), tail);
        assert(posix_unquote(escaped(Shell::Posix, p) + tail, QuoteState::InDouble)
            =~= single_quote_escaped(p) + posix_unquote(tail, QuoteState::InDouble));
    }
}

proof fn lemma_inner_layer(p: Seq<char>, tail: Seq<char>)
    ensures
        posix_unquote(single_quote_escaped(p) + tail, QuoteState::InSingle) == p + posix_unquote(
            tail,
            QuoteState::InSingle,
        ),
    decreases p.len(),
{
    if p.len() == 0 {
        assert(single_quote_escaped(p) + tail =~= tail);
        assert(p + posix_unquote(tail, QuoteState::InSingle) =~= posix_unquote(
            tail,
            QuoteState::InSingle,
        ));
    } else {
        let c = p[0];
        let x = single_quote_escaped(p.drop_first()) + tail;
        lemma_inner_layer(p.drop_first(), tail);
        let s = single_quote_escaped(p) + tail;
        assert(s =~= single_quote_escape(c) + x);
        if c == '\'' {
            reveal_strlit("'\"'\"'");
            let q = "'\"'\"'"@;
            assert(s =~= q + x);
            let s1 = s.drop_first();
            let s2 = s1.drop_first();
            let s3 = s2.drop_first();
            let s4 = s3.drop_first();
            assert(s1 =~= q.subrange(1, 5) + x);
            assert(s2 =~= q.subrange(2, 5) + x);
            assert(s3 =~= q.subrange(3, 5) + x);
            assert(s4 =~= q.subrange(4, 5) + x);
            assert(s4.drop_first() =~= x);
            assert(s[0] == '\'' && s1[0] == '"' && s2[0] == '\'' && s3[0] == '"' && s4[0]
                == '\'');
            assert(posix_unquote(s4, QuoteState::Bare) == posix_unquote(x, QuoteState::InSingle));
            assert(posix_unquote(s3, QuoteState::InDouble) == posix_unquote(s4, QuoteState::Bare));
            assert(posix_unquote(s2, QuoteState::InDouble) == seq!['\''] + posix_unquote(
                s3,
                QuoteState::InDouble,
            ));
            assert(posix_unquote(s1, QuoteState::Bare) == posix_unquote(s2, QuoteState::InDouble));
            assert(posix_unquote(s, QuoteState::InSingle) == posix_unquote(s1, QuoteState::Bare));
            assert(posix_unquote(s, QuoteState::InSingle) =~= seq!['\'']
                + posix_unquote(x, QuoteState::InSingle));
        } else {
            assert(s.drop_first() =~= x);
            assert(s[0] == c);
        }
        assert(p =~= seq![c] + p.drop_first());
        assert(posix_unquote(s, QuoteState::InSingle) =~= p + posix_unquote(
            tail,
            QuoteState::InSingle,
        ));
    }
}

proof fn lemma_powershell_inside(p: Seq<char>)
    ensures
        powershell_unquote(escaped(Shell::PowerShell, p) + "'"@, true) == p,
    decreases p.len(),
{
    reveal_strlit("'");
    if p.len() == 0 {
        let s = escaped(Shell::PowerShell, p) + "'"@;
        assert(s =~= seq!['\'']);
        assert(s.drop_first() =~= Seq::<char>::empty());
        assert(powershell_unquote(Seq::<char>::empty(), false) == Seq::<char>::empty());
        assert(powershell_unquote(s, true) =~= p);
    } else {
        let c = p[0];
        let x = escaped(Shell::PowerShell, p.drop_first()) + "'"@;
        lemma_escaped_first(Shell::PowerShell, p);
        lemma_powershell_inside(p.drop_first());
        let s = escaped(Shell::PowerShell, p) + "'"@;
        assert(s =~= escape_char(Shell::PowerShell, c) + x);
        assert(p =~= seq![c] + p.drop_first());
        if powershell_single_quote(c) {
            assert(s.subrange(2, s.len() as int) =~= x);
            assert(s[0] == c && s[1] == c);
            assert(powershell_unquote(s, true) == seq![c] + powershell_unquote(x, true));
        } else {
            assert(s.drop_first() =~= x);
            assert(s[0] == c);
            assert(powershell_unquote(s, true) == seq![c] + powershell_unquote(x, true));
        }
        assert(powershell_unquote(s, true) =~= p);
    }
}

/// The pattern, quoted for the preview command, reads back as the pattern
/// itself, whatever characters it holds, under the shell it was quoted for.
/// For POSIX, the outer double quotes of `sh -c "..."` are removed first and
/// leave the inner single-quoted word, which the inner shell then reads as
/// the pattern. For PowerShell this is the language's own quoting, all five
/// of its single-quote characters included.
pub proof fn lemma_quoted_pattern_round_trip(p: Seq<char>)
    ensures
        posix_unquote(seq!['"'] + quoted_word(Shell::Posix, p) + seq!['"'], QuoteState::Bare)
            == inner_word(p),
        posix_unquote(inner_word(p), QuoteState::Bare) == p,
        powershell_unquote(quoted_word(Shell::PowerShell, p), false) == p,
{
    reveal_strlit("'");
    let e = escaped(Shell::Posix, p);
    let w = seq!['"'] + quoted_word(Shell::Posix, p) + seq!['"'];
    let t = seq!['\'', '"'];
    let w1 = w.drop_first();
    assert(w1 =~= seq!['\''] + (e + t));
    assert(w1.drop_first() =~= e + t);
    assert(w[0] == '"' && w1[0] == '\'');
    lemma_outer_layer(p, t);
    assert(t.drop_first() =~= seq!['"']);
    assert(seq!['"'].drop_first() =~= Seq::<char>::empty());
    assert(posix_unquote(Seq::<char>::empty(), QuoteState::Bare) == Seq::<char>::empty());
    assert(posix_unquote(seq!['"'], QuoteState::InDouble) == Seq::<char>::empty());
    assert(posix_unquote(t, QuoteState::InDouble) == seq!['\''] + posix_unquote(
        seq!['"'],
        QuoteState::InDouble,
    ));
    assert(posix_unquote(w1, QuoteState::InDouble) == seq!['\''] + posix_unquote(
        e + t,
        QuoteState::InDouble,
    ));
    assert(posix_unquote(w, QuoteState::Bare) =~= inner_word(p));

    let v = inner_word(p);
    let q = "'"@;
    lemma_inner_layer(p, q);
    assert(v.drop_first() =~= single_quote_escaped(p) + q);
    assert(v[0] == '\'');
    assert(q.drop_first() =~= Seq::<char>::empty());
    assert(q[0] == '\'');
    assert(posix_unquote(q, QuoteState::InSingle) =~= Seq::<char>::empty());
    assert(posix_unquote(v, QuoteState::Bare) =~= p);

    lemma_powershell_inside(p);
    let u = quoted_word(Shell::PowerShell, p);
    assert(u.drop_first() =~= escaped(Shell::PowerShell, p) + "'"@);
}

/// The preview command is the search run again with the quoted pattern as
/// the word after `--`, and that word reads back as the pattern: for POSIX
/// through the outer double quotes of the `sh -c` frame and then the inner
/// single quotes. For PowerShell the claim covers patterns without `"`: the
/// command line of `powershell.exe`, which carries the command, is not
/// modelled and may remove that character.
pub proof fn lemma_preview_pattern(s: Settings, shell: Shell)
    ensures
        preview_text(s, shell) == preview_head(shell) + spaced(preview_flags(s)) + " -- "@
            + quoted_word(shell, s.pattern@) + preview_tail(shell),
        shell == Shell::Posix ==> posix_unquote(
            inner_word(s.pattern@),
            QuoteState::Bare,
        ) == s.pattern@ && posix_unquote(
            seq!['"'] + quoted_word(shell, s.pattern@) + seq!['"'],
            QuoteState::Bare,
        ) == inner_word(s.pattern@),
        shell == Shell::PowerShell && !s.pattern@.contains('"') ==> powershell_unquote(
            quoted_word(shell, s.pattern@),
            false,
        ) == s.pattern@,
{
    lemma_quoted_pattern_round_trip(s.pattern@);
}

} // verus!
