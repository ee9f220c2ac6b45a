use vstd::prelude::*;

verus! {

/// The byte-order mark that some editors put in front of a text file.
pub open spec fn is_byte_order_mark(c: char) -> bool {
    c == '\u{feff}'
}

/// Unicode `White_Space` characters, as `char::is_whitespace` classifies them.
pub open spec fn is_unicode_whitespace(c: char) -> bool {
    ||| ('\u{9}' <= c && c <= '\u{d}')
    ||| c == ' '
    ||| c == '\u{85}'
    ||| c == '\u{a0}'
    ||| c == '\u{1680}'
    ||| ('\u{2000}' <= c && c <= '\u{200a}')
    ||| c == '\u{2028}'
    ||| c == '\u{2029}'
    ||| c == '\u{202f}'
    ||| c == '\u{205f}'
    ||| c == '\u{3000}'
}

/// `s` without its leading byte-order marks (any number of them).
pub open spec fn strip_byte_order_marks(s: Seq<char>) -> Seq<char>
    decreases s.len(),
{
    if s.len() > 0 && is_byte_order_mark(s[0]) {
        strip_byte_order_marks(s.drop_first())
    } else {
        s
    }
}

/// `s` with every line ending made a single `'\n'`: a `"\r\n"` pair becomes
/// `'\n'`, and so does a lone `'\r'`.
pub open spec fn normalize_line_endings(s: Seq<char>) -> Seq<char>
    decreases s.len(),
{
    if s.len() == 0 {
        s
    } else if s[0] == '\r' && s.len() >= 2 && s[1] == '\n' {
        seq!['\n'] + normalize_line_endings(s.subrange(2, s.len() as int))
    } else if s[0] == '\r' {
        seq!['\n'] + normalize_line_endings(s.drop_first())
    } else {
        seq![s[0]] + normalize_line_endings(s.drop_first())
    }
}

/// `s` without its leading whitespace.
pub open spec fn trim_leading_whitespace(s: Seq<char>) -> Seq<char>
    decreases s.len(),
{
    if s.len() > 0 && is_unicode_whitespace(s[0]) {
        trim_leading_whitespace(s.drop_first())
    } else {
        s
    }
}

/// The directive that every shader handed to the driver starts with.
pub open spec fn version_directive() -> Seq<char> {
    seq!['#', 'v', 'e', 'r', 's', 'i', 'o', 'n']
}

/// The header put in front of a shader that names no GLSL version.
pub open spec fn default_version_header() -> Seq<char> {
    version_directive() + seq![' ', '3', '3', '0', ' ', 'c', 'o', 'r', 'e', '\n']
}

/// Whether `s` starts with `p`.
pub open spec fn starts_with(s: Seq<char>, p: Seq<char>) -> bool {
    p.len() <= s.len() && s.subrange(0, p.len() as int) == p
}

/// The shader text as the driver receives it: byte-order marks dropped,
/// line endings normalized, leading whitespace trimmed, and the default
/// version header added when the text does not open with `#version`.
pub open spec fn cleaned_shader_source(s: Seq<char>) -> Seq<char> {
    let body = trim_leading_whitespace(normalize_line_endings(strip_byte_order_marks(s)));
    if starts_with(body, version_directive()) {
        body
    } else {
        default_version_header() + body
    }
}

/// Appends `c` to `s` (`String::push`).
#[verifier::external_body]
fn string_push(s: &mut String, c: char)
    ensures
        final(s)@ == old(s)@.push(c),
{
    s.push(c)
}

/// The characters of `s`, in order.
fn chars_of(s: &str) -> (v: Vec<char>)
    ensures
        v@ == s@,
{
    let mut v: Vec<char> = Vec::new();
    for c in it: s.chars()
        invariant
            v@ == it.seq().take(it.index()),
    {
        v.push(c);
    }
    v
}

/// Whether `c` is Unicode whitespace.
pub fn is_whitespace(c: char) -> (b: bool)
    ensures
        b == is_unicode_whitespace(c),
{
    ('\u{9}' <= c && c <= '\u{d}') || c == ' ' || c == '\u{85}' || c == '\u{a0}' || c
        == '\u{1680}' || ('\u{2000}' <= c && c <= '\u{200a}') || c == '\u{2028}' || c
        == '\u{2029}' || c == '\u{202f}' || c == '\u{205f}' || c == '\u{3000}'
}

/// Index of the first character of `v` that is not a byte-order mark.
fn skip_byte_order_marks(v: &Vec<char>) -> (i: usize)
    ensures
        i <= v.len(),
        strip_byte_order_marks(v@) == v@.subrange(i as int, v.len() as int),
{
    let n = v.len();
    let mut i: usize = 0;
    assert(v@.subrange(0, n as int) =~= v@);
    while i < n && v[i] == '\u{feff}'
        invariant
            n == v.len(),
            i <= n,
            strip_byte_order_marks(v@) == strip_byte_order_marks(v@.subrange(i as int, n as int)),
        decreases n - i,
    {
        assert(v@.subrange(i as int, n as int).drop_first() =~= v@.subrange(i + 1, n as int));
        i = i + 1;
    }
    i
}

/// `v[from..]` with its line endings normalized.
fn normalized_tail(v: &Vec<char>, from: usize) -> (out: Vec<char>)
    requires
        from <= v.len(),
    ensures
        out@ == normalize_line_endings(v@.subrange(from as int, v.len() as int)),
{
    let n = v.len();
    let mut out: Vec<char> = Vec::new();
    let mut j: usize = from;
    while j < n
        invariant
            n == v.len(),
            from <= j <= n,
            out@ + normalize_line_endings(v@.subrange(j as int, n as int)) == normalize_line_endings(
                v@.subrange(from as int, n as int),
            ),
        decreases n - j,
    {
        let ghost rest = v@.subrange(j as int, n as int);
        let c = v[j];
        if c == '\r' && j + 1 < n && v[j + 1] == '\n' {
            assert(rest.subrange(2, rest.len() as int) =~= v@.subrange(j + 2, n as int));
            out.push('\n');
            j = j + 2;
        } else if c == '\r' {
            assert(rest.drop_first() =~= v@.subrange(j + 1, n as int));
            out.push('\n');
            j = j + 1;
        } else {
            assert(rest.drop_first() =~= v@.subrange(j + 1, n as int));
            out.push(c);
            j = j + 1;
        }
    }
    assert(v@.subrange(n as int, n as int) =~= Seq::<char>::empty());
    assert(out@ + Seq::<char>::empty() =~= out@);
    out
}

/// Index of the first character of `v` that is not whitespace.
fn skip_whitespace(v: &Vec<char>) -> (i: usize)
    ensures
        i <= v.len(),
        trim_leading_whitespace(v@) == v@.subrange(i as int, v.len() as int),
{
    let n = v.len();
    let mut i: usize = 0;
    assert(v@.subrange(0, n as int) =~= v@);
    while i < n && is_whitespace(v[i])
        invariant
            n == v.len(),
            i <= n,
            trim_leading_whitespace(v@) == trim_leading_whitespace(v@.subrange(i as int, n as int)),
        decreases n - i,
    {
        assert(v@.subrange(i as int, n as int).drop_first() =~= v@.subrange(i + 1, n as int));
        i = i + 1;
    }
    i
}

/// Whether `v[from..]` opens with `#version`.
fn opens_with_version_directive(v: &Vec<char>, from: usize) -> (b: bool)
    requires
        from <= v.len(),
    ensures
        b == starts_with(v@.subrange(from as int, v.len() as int), version_directive()),
{
    let directive = ['#', 'v', 'e', 'r', 's', 'i', 'o', 'n'];
    assert(directive@ =~= version_directive());
    let n = v.len();
    if n - from < 8 {
        return false;
    }
    let ghost body = v@.subrange(from as int, n as int);
    let mut k: usize = 0;
    while k < 8
        invariant
            n == v.len(),
            from + 8 <= n,
            k <= 8,
            body == v@.subrange(from as int, n as int),
            directive@ == version_directive(),
            forall|m: int| 0 <= m < k ==> body[m] == version_directive()[m],
        decreases 8 - k,
    {
        if v[from + k] != directive[k] {
            assert(body.subrange(0, 8)[k as int] != version_directive()[k as int]);
            return false;
        }
        k = k + 1;
    }
    assert(body.subrange(0, 8) =~= version_directive());
    true
}

/// Prepares shader text for the driver: drops leading byte-order marks,
/// turns `"\r\n"` and lone `'\r'` into `'\n'`, trims leading whitespace, and
/// puts `#version 330 core` in front when no `#version` line opens the text.
pub fn clean_shader_source(src: &str) -> (out: String)
    ensures
        out@ == cleaned_shader_source(src@),
{
    let chars = chars_of(src);
    let start = skip_byte_order_marks(&chars);
    let normalized = normalized_tail(&chars, start);
    let body_start = skip_whitespace(&normalized);
    let ghost body = normalized@.subrange(body_start as int, normalized.len() as int);
    let mut out = String::new();
    if !opens_with_version_directive(&normalized, body_start) {
        let header = ['#', 'v', 'e', 'r', 's', 'i', 'o', 'n', ' ', '3', '3', '0', ' ', 'c', 'o', 'r', 'e', '\n'];
        assert(header@ =~= default_version_header());
        let mut h: usize = 0;
        while h < 18
            invariant
                h <= 18,
                header@ == default_version_header(),
                out@ == header@.subrange(0, h as int),
            decreases 18 - h,
        {
            string_push(&mut out, header[h]);
            assert(header@.subrange(0, h + 1) =~= header@.subrange(0, h as int).push(header@[h as int]));
            h = h + 1;
        }
    }
    let ghost prefix = out@;
    let n = normalized.len();
    let mut j: usize = body_start;
    while j < n
        invariant
            n == normalized.len(),
            body_start <= j <= n,
            out@ == prefix + normalized@.subrange(body_start as int, j as int),
        decreases n - j,
    {
        string_push(&mut out, normalized[j]);
        assert(normalized@.subrange(body_start as int, j + 1) =~= normalized@.subrange(
            body_start as int,
            j as int,
        ).push(normalized@[j as int]));
        j = j + 1;
    }
    out
}


/// `s` has no carriage return.
pub open spec fn has_no_carriage_return(s: Seq<char>) -> bool {
    forall|i: int| 0 <= i < s.len() ==> s[i] != '\r'
}

proof fn lemma_normalized_has_no_carriage_return(s: Seq<char>)
    ensures
        has_no_carriage_return(normalize_line_endings(s)),
    decreases s.len(),
{
    if s.len() == 0 {
    } else if s[0] == '\r' && s.len() >= 2 && s[1] == '\n' {
        lemma_normalized_has_no_carriage_return(s.subrange(2, s.len() as int));
    } else {
        lemma_normalized_has_no_carriage_return(s.drop_first());
    }
}

proof fn lemma_normalize_keeps_text_without_carriage_return(s: Seq<char>)
    requires
        has_no_carriage_return(s),
    ensures
        normalize_line_endings(s) == s,
    decreases s.len(),
{
    if s.len() > 0 {
        assert(s[0] != '\r');
        lemma_normalize_keeps_text_without_carriage_return(s.drop_first());
        assert(seq![s[0]] + s.drop_first() =~= s);
    }
}

proof fn lemma_trim_keeps_no_carriage_return(s: Seq<char>)
    requires
        has_no_carriage_return(s),
    ensures
        has_no_carriage_return(trim_leading_whitespace(s)),
    decreases s.len(),
{
    if s.len() > 0 && is_unicode_whitespace(s[0]) {
        lemma_trim_keeps_no_carriage_return(s.drop_first());
    }
}

/// Cleaned shader text always opens with a `#version` directive.
pub proof fn lemma_cleaned_starts_with_version(s: Seq<char>)
    ensures
        starts_with(cleaned_shader_source(s), version_directive()),
{
    let body = trim_leading_whitespace(normalize_line_endings(strip_byte_order_marks(s)));
    if !starts_with(body, version_directive()) {
        let r = default_version_header() + body;
        assert(r.subrange(0, 8) =~= version_directive());
    }
}

/// Cleaned shader text has no carriage return: every line ends in `'\n'`.
pub proof fn lemma_cleaned_has_no_carriage_return(s: Seq<char>)
    ensures
        has_no_carriage_return(cleaned_shader_source(s)),
{
    let n = normalize_line_endings(strip_byte_order_marks(s));
    lemma_normalized_has_no_carriage_return(strip_byte_order_marks(s));
    lemma_trim_keeps_no_carriage_return(n);
    let body = trim_leading_whitespace(n);
    if !starts_with(body, version_directive()) {
        let r = default_version_header() + body;
        assert forall|i: int| 0 <= i < r.len() implies r[i] != '\r' by {
            if i >= default_version_header().len() {
                assert(r[i] == body[i - default_version_header().len()]);
            }
        }
    }
}

/// Cleaning cleaned shader text changes nothing.
pub proof fn lemma_cleaning_is_idempotent(s: Seq<char>)
    ensures
        cleaned_shader_source(cleaned_shader_source(s)) == cleaned_shader_source(s),
{
    let r = cleaned_shader_source(s);
    lemma_cleaned_starts_with_version(s);
    lemma_cleaned_has_no_carriage_return(s);
    assert(r[0] == r.subrange(0, 8)[0]);
    assert(r[0] == '#');
    assert(strip_byte_order_marks(r) == r);
    lemma_normalize_keeps_text_without_carriage_return(r);
    assert(trim_leading_whitespace(r) == r);
}


/// Position of the first `'\n'` in `s`, or `s.len()` when there is none.
pub open spec fn first_newline(s: Seq<char>) -> nat
    decreases s.len(),
{
    if s.len() == 0 {
        0
    } else if s[0] == '\n' {
        0
    } else {
        1 + first_newline(s.drop_first())
    }
}

/// A line as `str::lines` yields it: a `'\r'` right before the line's
/// `'\n'` is dropped too.
pub open spec fn line_text(raw: Seq<char>, ended_by_newline: bool) -> Seq<char> {
    if ended_by_newline && raw.len() > 0 && raw.last() == '\r' {
        raw.drop_last()
    } else {
        raw
    }
}

/// The lines of `s`, as `str::lines` splits it: at each `'\n'` (a `"\r\n"`
/// ending counts as one), with no empty line after a final `'\n'` and no
/// line at all for empty text.
pub open spec fn text_lines(s: Seq<char>) -> Seq<Seq<char>>
    decreases s.len(),
{
    if s.len() == 0 {
        seq![]
    } else {
        let e = first_newline(s);
        if e < s.len() {
            seq![line_text(s.subrange(0, e as int), true)] + text_lines(
                s.subrange(e + 1 as int, s.len() as int),
            )
        } else {
            seq![line_text(s, false)]
        }
    }
}

/// `lines` joined with `'\n'` between them.
pub open spec fn join_lines(lines: Seq<Seq<char>>) -> Seq<char>
    decreases lines.len(),
{
    if lines.len() == 0 {
        seq![]
    } else if lines.len() == 1 {
        lines[0]
    } else {
        join_lines(lines.drop_last()) + seq!['\n'] + lines.last()
    }
}

/// The first `max_lines` lines of `s` (all of them when there are fewer),
/// joined with `'\n'`.
pub open spec fn preview_of(s: Seq<char>, max_lines: nat) -> Seq<char> {
    let lines = text_lines(s);
    join_lines(if max_lines < lines.len() { lines.take(max_lines as int) } else { lines })
}

proof fn lemma_first_newline(t: Seq<char>, j: int)
    requires
        0 <= j <= t.len(),
        forall|i: int| 0 <= i < j ==> t[i] != '\n',
        j == t.len() || t[j] == '\n',
    ensures
        first_newline(t) == j,
    decreases j,
{
    if j > 0 {
        lemma_first_newline(t.drop_first(), j - 1);
    }
}

/// Appends `v[from..to]` to `out`.
fn push_chars(out: &mut String, v: &Vec<char>, from: usize, to: usize)
    requires
        from <= to <= v.len(),
    ensures
        final(out)@ == old(out)@ + v@.subrange(from as int, to as int),
{
    let ghost start = out@;
    let mut j = from;
    while j < to
        invariant
            from <= j <= to <= v.len(),
            out@ == start + v@.subrange(from as int, j as int),
        decreases to - j,
    {
        string_push(out, v[j]);
        assert(v@.subrange(from as int, j + 1) =~= v@.subrange(from as int, j as int).push(v@[j as int]));
        j = j + 1;
    }
}

/// The first `max_lines` lines of `source`, joined with `'\n'` (the preview
/// printed under a shader compile error).
pub fn source_preview(source: &str, max_lines: usize) -> (preview: String)
    ensures
        preview@ == preview_of(source@, max_lines as nat),
{
    let v = chars_of(source);
    let n = v.len();
    let mut out = String::new();
    let mut p: usize = 0;
    let mut m: usize = 0;
    let ghost mut done: Seq<Seq<char>> = seq![];
    assert(v@.subrange(0, n as int) =~= v@);
    assert(text_lines(v@) =~= done + text_lines(v@.subrange(0, n as int)));
    while p < n && m < max_lines
        invariant
            n == v.len(),
            p <= n,
            m <= max_lines,
            m == done.len(),
            text_lines(v@) == done + text_lines(v@.subrange(p as int, n as int)),
            out@ == join_lines(done),
        decreases n - p,
    {
        let ghost t = v@.subrange(p as int, n as int);
        let mut e = p;
        while e < n && v[e] != '\n'
            invariant
                p <= e <= n,
                n == v.len(),
                forall|i: int| p <= i < e ==> v@[i] != '\n',
            decreases n - e,
        {
            e = e + 1;
        }
        proof {
            lemma_first_newline(t, e - p);
        }
        let ended = e < n;
        let line_end = if ended && e > p && v[e - 1] == '\r' { e - 1 } else { e };
        let ghost line = v@.subrange(p as int, line_end as int);
        proof {
            if ended {
                assert(t.subrange(0, e - p) =~= v@.subrange(p as int, e as int));
                assert(t.subrange(e - p + 1, t.len() as int) =~= v@.subrange(e + 1, n as int));
                assert(line =~= line_text(t.subrange(0, e - p), true));
            } else {
                assert(t =~= v@.subrange(p as int, e as int));
                assert(line =~= line_text(t, false));
                assert(v@.subrange(n as int, n as int) =~= Seq::<char>::empty());
            }
        }
        if m > 0 {
            string_push(&mut out, '\n');
        }
        push_chars(&mut out, &v, p, line_end);
        proof {
            let d2 = done.push(line);
            assert(d2.drop_last() =~= done);
            if !ended {
                assert(text_lines(t) =~= seq![line]);
            }
            assert(text_lines(v@) =~= d2 + text_lines(v@.subrange(
                if ended { e + 1 } else { n as int },
                n as int,
            )));
            done = d2;
        }
        p = if ended { e + 1 } else { n };
        m = m + 1;
    }
    proof {
        let lines = text_lines(v@);
        if p == n {
            assert(v@.subrange(n as int, n as int) =~= Seq::<char>::empty());
            assert(lines =~= done);
        } else {
            assert(lines.take(max_lines as int) =~= done);
        }
    }
    out
}


/// Shader text that is already clean apart from its header (no leading
/// byte-order mark or whitespace, no carriage return) is kept whole: it is
/// returned as it is when it opens with `#version`, and otherwise comes out
/// as the 18-character default header followed by all of the text.
pub proof fn lemma_cleaning_keeps_plain_text(s: Seq<char>)
    requires
        has_no_carriage_return(s),
        s.len() > 0 ==> !is_byte_order_mark(s[0]) && !is_unicode_whitespace(s[0]),
    ensures
        starts_with(s, version_directive()) ==> cleaned_shader_source(s) == s,
        !starts_with(s, version_directive()) ==> {
            let r = cleaned_shader_source(s);
            &&& r.len() == 18 + s.len()
            &&& r.subrange(0, 18) == default_version_header()
            &&& r.subrange(18, r.len() as int) == s
        },
{
    assert(strip_byte_order_marks(s) == s);
    lemma_normalize_keeps_text_without_carriage_return(s);
    assert(trim_leading_whitespace(s) == s);
    let r = cleaned_shader_source(s);
    if !starts_with(s, version_directive()) {
        assert(default_version_header().len() == 18);
        assert(r.subrange(0, 18) =~= default_version_header());
        assert(r.subrange(18, r.len() as int) =~= s);
    }
}

/// Cleaning keeps every character of the text after its leading byte-order
/// marks and whitespace, with each line ending made one `'\n'`: that text is
/// all of the result but for at most the 18-character header in front.
pub proof fn lemma_cleaning_keeps_the_body(s: Seq<char>)
    ensures
        ({
            let body = trim_leading_whitespace(normalize_line_endings(strip_byte_order_marks(s)));
            let r = cleaned_shader_source(s);
            &&& body.len() <= r.len() <= body.len() + 18
            &&& r.subrange(r.len() - body.len(), r.len() as int) == body
        }),
{
    let body = trim_leading_whitespace(normalize_line_endings(strip_byte_order_marks(s)));
    let r = cleaned_shader_source(s);
    assert(default_version_header().len() == 18);
    if starts_with(body, version_directive()) {
        assert(r.subrange(0, r.len() as int) =~= r);
    } else {
        assert(r.subrange(r.len() - body.len(), r.len() as int) =~= body);
    }
}

/// How many source lines a compile error report shows.
pub const PREVIEW_LINES: usize = 8;

/// The report printed when a shader fails to compile: the driver's log,
/// then the first lines of the source that was compiled.
pub fn shader_compile_report(log: &str, source: &str) -> (report: String)
    ensures
        report@ == "Shader compile error:\n"@ + log@ + "\n--- source preview ---\n"@ + preview_of(
            source@,
            PREVIEW_LINES as nat,
        ),
{
    let mut report = String::new();
    report.append("Shader compile error:\n");
    report.append(log);
    report.append("\n--- source preview ---\n");
    let preview = source_preview(source, PREVIEW_LINES);
    report.append(preview.as_str());
    report
}

/// The report printed when a shader program fails to link.
pub fn program_link_report(log: &str) -> (report: String)
    ensures
        report@ == "Program link error: "@ + log@,
{
    let mut report = String::new();
    report.append("Program link error: ");
    report.append(log);
    report
}

} // verus!
