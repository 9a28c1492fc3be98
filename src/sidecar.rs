//! The timing sidecar: a JSON listing of each frame's position and how long
//! it stays, in the form that APNG assembly tools read.
use vstd::prelude::*;
use vstd::string::StringExecFns;

verus! {

/// The decimal digit `d`.
pub open spec fn digit_char(d: int) -> char {
    if d == 0 {
        '0'
    } else if d == 1 {
        '1'
    } else if d == 2 {
        '2'
    } else if d == 3 {
        '3'
    } else if d == 4 {
        '4'
    } else if d == 5 {
        '5'
    } else if d == 6 {
        '6'
    } else if d == 7 {
        '7'
    } else if d == 8 {
        '8'
    } else {
        '9'
    }
}

/// `n` written in decimal, without leading zeros.
pub open spec fn decimal(n: nat) -> Seq<char>
    decreases n,
{
    if n < 10 {
        seq![digit_char(n as int)]
    } else {
        decimal(n / 10).push(digit_char((n % 10) as int))
    }
}

/// `s` with zeros put in front of it up to `width` characters.
pub open spec fn zero_padded(s: Seq<char>, width: nat) -> Seq<char> {
    if s.len() < width {
        Seq::new((width - s.len()) as nat, |i: int| '0') + s
    } else {
        s
    }
}

/// The label of the frame at position `j`: its position in decimal, at least
/// four digits wide.
pub open spec fn frame_label_spec(j: nat) -> Seq<char> {
    zero_padded(decimal(j), 4)
}

fn digit_str(d: u64) -> (r: &'static str)
    requires
        d < 10,
    ensures
        r@ == seq![digit_char(d as int)],
{
    proof {
        reveal_strlit("0");
        reveal_strlit("1");
        reveal_strlit("2");
        reveal_strlit("3");
        reveal_strlit("4");
        reveal_strlit("5");
        reveal_strlit("6");
        reveal_strlit("7");
        reveal_strlit("8");
        reveal_strlit("9");
    }
    if d == 0 {
        "0"
    } else if d == 1 {
        "1"
    } else if d == 2 {
        "2"
    } else if d == 3 {
        "3"
    } else if d == 4 {
        "4"
    } else if d == 5 {
        "5"
    } else if d == 6 {
        "6"
    } else if d == 7 {
        "7"
    } else if d == 8 {
        "8"
    } else {
        "9"
    }
}

proof fn lemma_decimal_len(n: nat)
    ensures
        1 <= decimal(n).len() <= n + 1,
    decreases n,
{
    if n >= 10 {
        lemma_decimal_len(n / 10);
    }
}

/// The number of digits of `n` in decimal.
fn decimal_len(n: u64) -> (r: u64)
    ensures
        r == decimal(n as nat).len(),
    decreases n,
{
    proof {
        lemma_decimal_len(n as nat);
    }
    if n < 10 {
        1
    } else {
        proof {
            lemma_decimal_len((n / 10) as nat);
        }
        decimal_len(n / 10) + 1
    }
}

/// Appends `n` in decimal to `s`.
fn append_decimal(s: &mut String, n: u64)
    ensures
        final(s)@ == old(s)@ + decimal(n as nat),
    decreases n,
{
    if n < 10 {
        s.append(digit_str(n));
    } else {
        append_decimal(s, n / 10);
        s.append(digit_str(n % 10));
        assert(decimal(n as nat) == decimal((n / 10) as nat).push(digit_char((n % 10) as int)));
    }
}

/// Appends the label of the frame at position `j` to `s`.
pub(crate) fn append_frame_label(s: &mut String, j: u64)
    ensures
        final(s)@ == old(s)@ + frame_label_spec(j as nat),
{
    let len = decimal_len(j);
    let ghost start = s@;
    let mut pad: u64 = len;
    while pad < 4
        invariant
            len == decimal(j as nat).len(),
            len <= pad <= 4 || (len > 4 && pad == len),
            s@ == start + Seq::new((pad - len) as nat, |i: int| '0'),
        decreases 4 - pad,
    {
        proof {
            reveal_strlit("0");
        }
        s.append("0");
        pad = pad + 1;
        assert(s@ =~= start + Seq::new((pad - len) as nat, |i: int| '0'));
    }
    append_decimal(s, j);
    assert(s@ =~= start + frame_label_spec(j as nat));
}

/// The label of the frame at position `j`: its position in decimal, padded
/// with zeros to four digits (`7` gives `0007`, `12345` stays as it is).
pub fn frame_label(j: u64) -> (r: String)
    ensures
        r@ == frame_label_spec(j as nat),
{
    let mut s = String::new();
    append_frame_label(&mut s, j);
    assert(s@ =~= frame_label_spec(j as nat));
    s
}

/// The duration text of the frame at position `j`, with `n` frames per
/// transition: the original images, at positions that are multiples of `n`,
/// carry `endpoint`, the frames between them `step`.
pub open spec fn sidecar_duration(j: nat, n: nat, endpoint: Seq<char>, step: Seq<char>) -> Seq<
    char,
> {
    if j % n == 0 {
        endpoint
    } else {
        step
    }
}

/// The line of the frame at position `j` whose duration in milliseconds is
/// written `duration`: `\t\t{"0007": "10/1000"}`.
pub open spec fn sidecar_entry(j: nat, duration: Seq<char>) -> Seq<char> {
    "\t\t{\""@ + frame_label_spec(j) + "\": \""@ + duration + "/1000\"}"@
}

/// The lines of the first `m` frames, one for each position.
pub open spec fn sidecar_lines(m: nat, n: nat, endpoint: Seq<char>, step: Seq<char>) -> Seq<
    Seq<char>,
> {
    Seq::new(m, |j: int| sidecar_entry(j as nat, sidecar_duration(j as nat, n, endpoint, step)))
}

/// `lines` one after the other with `sep` between each two of them.
pub open spec fn joined(lines: Seq<Seq<char>>, sep: Seq<char>) -> Seq<char>
    decreases lines.len(),
{
    if lines.len() == 0 {
        Seq::empty()
    } else if lines.len() == 1 {
        lines[0]
    } else {
        joined(lines.drop_last(), sep) + sep + lines.last()
    }
}

/// What the sidecar opens with, up to its list of frames.
pub open spec fn sidecar_header() -> Seq<char> {
    "{\n\t\"name\": \"output\",\n\t\"loops\": 0,\n\t\"skip_first\": false,\n\t\"frames\": [\n"@
}

/// What the sidecar closes with, after its list of frames.
pub open spec fn sidecar_footer() -> Seq<char> {
    "\n\t]\n}"@
}

/// The whole sidecar for `images_count` images and `n` frames per
/// transition: one line for each of the `images_count * n` frames, separated
/// by a comma and a line break.
pub open spec fn sidecar_json(
    images_count: nat,
    n: nat,
    endpoint: Seq<char>,
    step: Seq<char>,
) -> Seq<char> {
    sidecar_header() + joined(sidecar_lines(images_count * n, n, endpoint, step), ",\n"@)
        + sidecar_footer()
}

/// The sidecar for a loop over `images_count` images with `frame_count`
/// frames per transition, the durations given as text: a JSON object named
/// `output` that loops forever and lists, for each frame in order, its
/// four-digit label and how long it stays (`important_frame_duration` for the
/// original images, `frame_duration` for the others) in milliseconds over
/// 1000.
pub fn generate_json_from_text(
    images_count: &u32,
    frame_count: &u32,
    important_frame_duration: &str,
    frame_duration: &str,
) -> (r: String)
    requires
        *frame_count >= 1,
    ensures
        r@ == sidecar_json(
            *images_count as nat,
            *frame_count as nat,
            important_frame_duration@,
            frame_duration@,
        ),
{
    let n: u64 = *frame_count as u64;
    assert(*images_count * n <= 0xffff_ffff * 0xffff_ffffu64) by (nonlinear_arith)
        requires
            *images_count <= 0xffff_ffff,
            n <= 0xffff_ffff,
    ;
    let total: u64 = *images_count as u64 * n;
    let ghost e = important_frame_duration@;
    let ghost st = frame_duration@;
    let ghost sep = ",\n"@;
    let mut json = String::new();
    json.append(
        "{\n\t\"name\": \"output\",\n\t\"loops\": 0,\n\t\"skip_first\": false,\n\t\"frames\": [\n",
    );
    assert(sidecar_lines(0, n as nat, e, st).len() == 0);
    assert(json@ =~= sidecar_header() + joined(sidecar_lines(0, n as nat, e, st), sep));
    let mut j: u64 = 0;
    while j < total
        invariant
            n >= 1,
            j <= total,
            e == important_frame_duration@,
            st == frame_duration@,
            sep == ",\n"@,
            json@ == sidecar_header() + joined(sidecar_lines(j as nat, n as nat, e, st), sep),
        decreases total - j,
    {
        let ghost before = json@;
        if j > 0 {
            json.append(",\n");
        }
        json.append("\t\t{\"");
        append_frame_label(&mut json, j);
        json.append("\": \"");
        if j % n == 0 {
            json.append(important_frame_duration);
        } else {
            json.append(frame_duration);
        }
        json.append("/1000\"}");
        let ghost line = sidecar_entry(j as nat, sidecar_duration(j as nat, n as nat, e, st));
        let ghost lines = sidecar_lines((j + 1) as nat, n as nat, e, st);
        assert(lines.drop_last() =~= sidecar_lines(j as nat, n as nat, e, st));
        assert(lines.last() == line);
        if j > 0 {
            assert(json@ =~= before + sep + line);
        } else {
            assert(json@ =~= before + line);
            assert(joined(lines, sep) == line);
        }
        j = j + 1;
    }
    json.append("\n\t]\n}");
    json
}

/// `n` in decimal.
pub fn decimal_string(n: u64) -> (r: String)
    ensures
        r@ == decimal(n as nat),
{
    let mut s = String::new();
    append_decimal(&mut s, n);
    assert(s@ =~= decimal(n as nat));
    s
}

/// The sidecar for a loop over `images_count` images with `frame_count`
/// frames per transition, original images staying `important_frame_duration`
/// milliseconds and the frames between them `frame_duration`, both written in
/// decimal.
pub fn generate_json(
    images_count: &u32,
    frame_count: &u32,
    important_frame_duration: &u64,
    frame_duration: &u64,
) -> (r: String)
    requires
        *frame_count >= 1,
    ensures
        r@ == sidecar_json(
            *images_count as nat,
            *frame_count as nat,
            decimal(*important_frame_duration as nat),
            decimal(*frame_duration as nat),
        ),
{
    let important = decimal_string(*important_frame_duration);
    let step = decimal_string(*frame_duration);
    generate_json_from_text(images_count, frame_count, important.as_str(), step.as_str())
}

} // verus!
