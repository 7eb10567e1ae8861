use vstd::prelude::*;

verus! {

/// Pattern that a recipient address must match in full.
pub const EMAIL_PATTERN: &'static str = r"(?x)^[\w-]+(\.[\w-]+)*@([\w-]+\.)+[a-zA-Z]{2,7}$";

/// Failures of the recipient operations.
#[derive(Clone, Copy, Debug, PartialEq, Eq, Structural)]
pub enum RecipientsError {
    /// The input file's extension names no supported format.
    UnsupportedFileType,
    /// The input file is not a JSON array of strings.
    MalformedJson,
    /// An add held no valid address.
    NoValidEmails,
}

/// Formats of a recipient input file.
#[derive(Clone, Copy, Debug, PartialEq, Eq, Structural)]
pub enum RecipientFormat {
    Csv,
    Txt,
    Json,
}

/// What the regex crate answers when `pattern` is compiled and matched
/// against `hay`: `None` where the pattern does not compile.
pub uninterp spec fn regex_match(pattern: Seq<char>, hay: Seq<char>) -> Option<bool>;

/// The lines that `str::lines` yields for `s`.
pub uninterp spec fn lines_of(s: Seq<char>) -> Seq<Seq<char>>;

/// The strings of `s` read by serde_json as a JSON array of strings, or
/// `None` where `s` is not one.
pub uninterp spec fn json_strings_of(s: Seq<char>) -> Option<Seq<Seq<char>>>;

/// Relies on regex's `Regex::new` and `Regex::is_match`: the answer depends
/// on the pattern and the text alone.
#[verifier::external_body]
fn regex_is_match(pattern: &str, hay: &str) -> (r: Option<bool>)
    ensures
        r == regex_match(pattern@, hay@),
{
    regex::Regex::new(pattern).ok().map(|re| re.is_match(hay))
}

/// Relies on `str::lines`: the text split at line ends, without them.
#[verifier::external_body]
fn text_lines(s: &str) -> (r: Vec<String>)
    ensures
        r.deep_view() == lines_of(s@),
{
    s.lines().map(|l| l.to_string()).collect()
}

/// Relies on `serde_json::from_str` read into a `Vec<String>`.
#[verifier::external_body]
fn json_string_array(s: &str) -> (r: Option<Vec<String>>)
    ensures
        r is None <==> json_strings_of(s@) is None,
        r matches Some(v) ==> json_strings_of(s@) == Some(v.deep_view()),
{
    serde_json::from_str::<Vec<String>>(s).ok()
}

/// `s` is a syntactically valid address.
pub open spec fn is_email(s: Seq<char>) -> bool {
    s.len() > 0 && regex_match(EMAIL_PATTERN@, s) == Some(true)
}

/// Whether `email` is a syntactically valid address.
pub fn is_valid_email(email: &str) -> (r: bool)
    ensures
        r == is_email(email@),
{
    if email.is_empty() {
        return false;
    }
    match regex_is_match(EMAIL_PATTERN, email) {
        Some(b) => b,
        None => false,
    }
}

/// The candidates whose flag is set, in their order.
pub open spec fn kept(cands: Seq<Seq<char>>, ok: Seq<bool>) -> Seq<Seq<char>>
    decreases cands.len(),
{
    if cands.len() == 0 {
        Seq::empty()
    } else {
        let prev = kept(cands.drop_last(), ok.take(cands.len() - 1));
        if ok[cands.len() - 1] {
            prev.push(cands.last())
        } else {
            prev
        }
    }
}

/// For each candidate, whether it is a valid address.
pub open spec fn email_flags(cands: Seq<Seq<char>>) -> Seq<bool> {
    Seq::new(cands.len(), |i: int| is_email(cands[i]))
}

/// The valid addresses among `cands`, in their order.
pub open spec fn valid_emails(cands: Seq<Seq<char>>) -> Seq<Seq<char>> {
    kept(cands, email_flags(cands))
}

/// Keeps the candidates whose flag is set, in their order.
pub fn keep_flagged(cands: &Vec<String>, ok: &Vec<bool>) -> (r: Vec<String>)
    requires
        cands@.len() == ok@.len(),
    ensures
        r.deep_view() == kept(cands.deep_view(), ok@),
{
    let mut r: Vec<String> = Vec::new();
    let mut i: usize = 0;
    while i < cands.len()
        invariant
            i <= cands@.len(),
            cands@.len() == ok@.len(),
            r.deep_view() == kept(cands.deep_view().take(i as int), ok@.take(i as int)),
        decreases cands@.len() - i,
    {
        let ghost before = r.deep_view();
        proof {
            let c = cands.deep_view().take(i + 1);
            assert(c.drop_last() =~= cands.deep_view().take(i as int));
            assert(ok@.take(i + 1).take(i as int) =~= ok@.take(i as int));
        }
        if ok[i] {
            r.push(cands[i].clone());
            assert(r.deep_view() =~= before.push(cands[i as int]@));
        }
        i = i + 1;
    }
    assert(cands.deep_view().take(i as int) =~= cands.deep_view());
    assert(ok@.take(i as int) =~= ok@);
    r
}

/// The valid addresses among `cands`, in their order.
pub fn filter_valid_emails(cands: &Vec<String>) -> (r: Vec<String>)
    ensures
        r.deep_view() == valid_emails(cands.deep_view()),
{
    let mut ok: Vec<bool> = Vec::new();
    let mut i: usize = 0;
    while i < cands.len()
        invariant
            i <= cands@.len(),
            ok@.len() == i,
            forall|j: int| 0 <= j < i ==> ok@[j] == is_email(#[trigger] cands@[j]@),
        decreases cands@.len() - i,
    {
        ok.push(is_valid_email(cands[i].as_str()));
        i = i + 1;
    }
    assert(ok@ =~= email_flags(cands.deep_view()));
    keep_flagged(cands, &ok)
}

/// `existing` with each of `incoming` appended, in order, unless already there.
pub open spec fn merged(existing: Seq<Seq<char>>, incoming: Seq<Seq<char>>) -> Seq<Seq<char>>
    decreases incoming.len(),
{
    if incoming.len() == 0 {
        existing
    } else {
        let m = merged(existing, incoming.drop_last());
        if m.contains(incoming.last()) {
            m
        } else {
            m.push(incoming.last())
        }
    }
}

fn contains_text(v: &Vec<String>, s: &String) -> (r: bool)
    ensures
        r == v.deep_view().contains(s@),
{
    let mut i: usize = 0;
    while i < v.len()
        invariant
            i <= v@.len(),
            forall|j: int| 0 <= j < i ==> v@[j]@ != s@,
        decreases v@.len() - i,
    {
        if v[i].eq(s) {
            assert(v.deep_view()[i as int] == s@);
            return true;
        }
        i = i + 1;
    }
    proof {
        if v.deep_view().contains(s@) {
            let j = choose|j: int| 0 <= j < v.deep_view().len() && v.deep_view()[j] == s@;
            assert(v@[j]@ == s@);
        }
    }
    false
}

/// Appends to `existing` each of `incoming`, in order, that it does not hold yet.
pub fn merge_emails(existing: Vec<String>, incoming: &Vec<String>) -> (r: Vec<String>)
    ensures
        r.deep_view() == merged(existing.deep_view(), incoming.deep_view()),
{
    let ghost e = existing.deep_view();
    let mut r = existing;
    let mut i: usize = 0;
    while i < incoming.len()
        invariant
            i <= incoming@.len(),
            r.deep_view() == merged(e, incoming.deep_view().take(i as int)),
        decreases incoming@.len() - i,
    {
        proof {
            assert(incoming.deep_view().take(i + 1).drop_last() =~= incoming.deep_view().take(i as int));
        }
        if !contains_text(&r, &incoming[i]) {
            let ghost before = r.deep_view();
            r.push(incoming[i].clone());
            assert(r.deep_view() =~= before.push(incoming[i as int]@));
        }
        i = i + 1;
    }
    assert(incoming.deep_view().take(i as int) =~= incoming.deep_view());
    r
}

/// Adds the valid addresses of `incoming` to the stored list `existing`,
/// skipping any already held. Fails with `NoValidEmails`, and adds nothing,
/// when `incoming` holds no valid address.
pub fn add_recipients(existing: Vec<String>, incoming: &Vec<String>) -> (r: Result<
    Vec<String>,
    RecipientsError,
>)
    ensures
        valid_emails(incoming.deep_view()).len() == 0 ==> r == Err::<Vec<String>, RecipientsError>(
            RecipientsError::NoValidEmails,
        ),
        valid_emails(incoming.deep_view()).len() > 0 ==> (r matches Ok(v) && v.deep_view()
            == merged(existing.deep_view(), valid_emails(incoming.deep_view()))),
{
    let valid = filter_valid_emails(incoming);
    if valid.len() == 0 {
        return Err(RecipientsError::NoValidEmails);
    }
    Ok(merge_emails(existing, &valid))
}

fn same_text(a: &str, b: &str) -> (r: bool)
    ensures
        r == (a@ == b@),
{
    String::from_str(a).eq(&String::from_str(b))
}

/// The recipient file format named by a file extension.
pub fn recipient_format(extension: &str) -> (r: Result<RecipientFormat, RecipientsError>)
    ensures
        r == (if extension@ == "csv"@ {
            Ok::<RecipientFormat, RecipientsError>(RecipientFormat::Csv)
        } else if extension@ == "txt"@ {
            Ok(RecipientFormat::Txt)
        } else if extension@ == "json"@ {
            Ok(RecipientFormat::Json)
        } else {
            Err(RecipientsError::UnsupportedFileType)
        }),
{
    if same_text(extension, "csv") {
        Ok(RecipientFormat::Csv)
    } else if same_text(extension, "txt") {
        Ok(RecipientFormat::Txt)
    } else if same_text(extension, "json") {
        Ok(RecipientFormat::Json)
    } else {
        Err(RecipientsError::UnsupportedFileType)
    }
}

/// `s` cut at each occurrence of `sep`, as `str::split` with a character
/// pattern cuts it: empty pieces kept, one piece for a text without `sep`.
pub open spec fn split_on(s: Seq<char>, sep: char) -> Seq<Seq<char>>
    decreases s.len(),
{
    if s.len() == 0 {
        seq![Seq::empty()]
    } else {
        let rest = split_on(s.drop_last(), sep);
        if s.last() == sep {
            rest.push(Seq::empty())
        } else {
            rest.update(rest.len() - 1, rest.last().push(s.last()))
        }
    }
}

/// Relies on `str::split` with a `char` pattern.
#[verifier::external_body]
fn split_text(s: &str, sep: char) -> (r: Vec<String>)
    ensures
        r.deep_view() == split_on(s@, sep),
{
    s.split(sep).map(|p| p.to_string()).collect()
}

/// The comma-separated fields of `lines`, in order, each taken as it stands.
pub open spec fn csv_fields(lines: Seq<Seq<char>>) -> Seq<Seq<char>>
    decreases lines.len(),
{
    if lines.len() == 0 {
        Seq::empty()
    } else {
        csv_fields(lines.drop_last()) + split_on(lines.last(), ',')
    }
}

/// Appends to `out` the comma-separated fields of `line`.
fn push_csv_fields(line: &String, out: &mut Vec<String>)
    ensures
        final(out).deep_view() == old(out).deep_view() + split_on(line@, ','),
{
    let fields = split_text(line.as_str(), ',');
    let ghost start = out.deep_view();
    let ghost want = split_on(line@, ',');
    let mut i: usize = 0;
    while i < fields.len()
        invariant
            i <= fields@.len(),
            fields.deep_view() == split_on(line@, ','),
            want == split_on(line@, ','),
            out.deep_view() == start + want.take(i as int),
        decreases fields@.len() - i,
    {
        let t = fields[i].clone();
        let ghost before = out.deep_view();
        out.push(t);
        assert(fields.deep_view()[i as int] == fields@[i as int]@);
        assert(out.deep_view() =~= before.push(t@));
        assert(start + want.take(i + 1) =~= (start + want.take(i as int)).push(want[i as int]));
        i = i + 1;
    }
    assert(want.take(i as int) =~= want);
}

/// The comma-separated fields of all `lines`, in order, each as it stands.
pub fn csv_fields_of(lines: &Vec<String>) -> (r: Vec<String>)
    ensures
        r.deep_view() == csv_fields(lines.deep_view()),
{
    let mut out: Vec<String> = Vec::new();
    let mut i: usize = 0;
    while i < lines.len()
        invariant
            i <= lines@.len(),
            out.deep_view() == csv_fields(lines.deep_view().take(i as int)),
        decreases lines@.len() - i,
    {
        proof {
            assert(lines.deep_view().take(i + 1).drop_last() =~= lines.deep_view().take(i as int));
            assert(lines.deep_view().take(i + 1).last() == lines@[i as int]@);
        }
        push_csv_fields(&lines[i], &mut out);
        i = i + 1;
    }
    assert(lines.deep_view().take(i as int) =~= lines.deep_view());
    out
}

/// The valid addresses listed in the contents of a recipient file: one per
/// line for text, separated by commas or line ends for CSV, the strings of an
/// array for JSON. Every piece is taken as it stands.
pub fn read_emails_from_file(format: RecipientFormat, contents: &str) -> (r: Result<
    Vec<String>,
    RecipientsError,
>)
    ensures
        format == RecipientFormat::Txt ==> (r matches Ok(v) && v.deep_view() == valid_emails(
            lines_of(contents@),
        )),
        format == RecipientFormat::Csv ==> (r matches Ok(v) && v.deep_view() == valid_emails(
            csv_fields(lines_of(contents@)),
        )),
        format == RecipientFormat::Json ==> match json_strings_of(contents@) {
            None => r == Err::<Vec<String>, RecipientsError>(RecipientsError::MalformedJson),
            Some(items) => (r matches Ok(v) && v.deep_view() == valid_emails(items)),
        },
{
    match format {
        RecipientFormat::Json => match json_string_array(contents) {
            None => Err(RecipientsError::MalformedJson),
            Some(items) => Ok(filter_valid_emails(&items)),
        },
        RecipientFormat::Csv => {
            let lines = text_lines(contents);
            let fields = csv_fields_of(&lines);
            Ok(filter_valid_emails(&fields))
        },
        RecipientFormat::Txt => {
            let lines = text_lines(contents);
            Ok(filter_valid_emails(&lines))
        },
    }
}

/// Merging keeps a duplicate-free list free of duplicates; the result holds
/// every address of both lists and no other.
pub proof fn lemma_merged_deduplicated(existing: Seq<Seq<char>>, incoming: Seq<Seq<char>>)
    requires
        existing.no_duplicates(),
    ensures
        merged(existing, incoming).no_duplicates(),
        forall|x: Seq<char>|
            #[trigger] merged(existing, incoming).contains(x) <==> (existing.contains(x)
                || incoming.contains(x)),
    decreases incoming.len(),
{
    if incoming.len() > 0 {
        let rest = incoming.drop_last();
        lemma_merged_deduplicated(existing, rest);
        let m = merged(existing, rest);
        let last = incoming.last();
        assert forall|x: Seq<char>| incoming.contains(x) <==> (rest.contains(x) || x == last) by {
            if incoming.contains(x) {
                let j = choose|j: int| 0 <= j < incoming.len() && incoming[j] == x;
                if j < incoming.len() - 1 {
                    assert(rest[j] == x);
                }
            }
            if rest.contains(x) {
                let j = choose|j: int| 0 <= j < rest.len() && rest[j] == x;
                assert(incoming[j] == x);
            }
            if x == last {
                assert(incoming[incoming.len() - 1] == x);
            }
        }
        if !m.contains(last) {
            let n = m.push(last);
            assert forall|x: Seq<char>| n.contains(x) <==> (m.contains(x) || x == last) by {
                if n.contains(x) {
                    let j = choose|j: int| 0 <= j < n.len() && n[j] == x;
                    if j < m.len() {
                        assert(m[j] == x);
                    }
                }
                if m.contains(x) {
                    let j = choose|j: int| 0 <= j < m.len() && m[j] == x;
                    assert(n[j] == x);
                }
                if x == last {
                    assert(n[m.len() as int] == x);
                }
            }
            assert forall|i: int, j: int| 0 <= i < n.len() && 0 <= j < n.len() && i != j implies n[i]
                != n[j] by {
                if i < m.len() && j < m.len() {
                } else if i < m.len() {
                    assert(m.contains(n[i]));
                } else {
                    assert(m.contains(n[j]));
                }
            }
        }
    }
}

proof fn lemma_merged_holds_all(existing: Seq<Seq<char>>, incoming: Seq<Seq<char>>)
    ensures
        forall|x: Seq<char>|
            existing.contains(x) || incoming.contains(x) ==> #[trigger] merged(existing, incoming).contains(x),
    decreases incoming.len(),
{
    if incoming.len() > 0 {
        let rest = incoming.drop_last();
        lemma_merged_holds_all(existing, rest);
        let m = merged(existing, rest);
        assert forall|x: Seq<char>|
            existing.contains(x) || incoming.contains(x) implies #[trigger] merged(existing, incoming).contains(x) by {
            if incoming.contains(x) && x != incoming.last() {
                let j = choose|j: int| 0 <= j < incoming.len() && incoming[j] == x;
                assert(rest[j] == x);
            }
            if !m.contains(incoming.last()) {
                let n = m.push(incoming.last());
                if m.contains(x) {
                    let j = choose|j: int| 0 <= j < m.len() && m[j] == x;
                    assert(n[j] == x);
                }
                if x == incoming.last() {
                    assert(n[m.len() as int] == x);
                }
            }
        }
    }
}

proof fn lemma_merged_absorbs(m: Seq<Seq<char>>, w: Seq<Seq<char>>)
    requires
        forall|x: Seq<char>| #[trigger] w.contains(x) ==> m.contains(x),
    ensures
        merged(m, w) == m,
    decreases w.len(),
{
    if w.len() > 0 {
        let rest = w.drop_last();
        assert forall|x: Seq<char>| #[trigger] rest.contains(x) implies m.contains(x) by {
            let j = choose|j: int| 0 <= j < rest.len() && rest[j] == x;
            assert(w[j] == x);
            assert(w.contains(x));
        }
        lemma_merged_absorbs(m, rest);
        assert(w.contains(w[w.len() - 1]));
    }
}

/// Repeating an add gives back the list that the first add gave.
pub proof fn lemma_add_twice_unchanged(existing: Seq<Seq<char>>, incoming: Seq<Seq<char>>)
    ensures
        merged(merged(existing, valid_emails(incoming)), valid_emails(incoming)) == merged(
            existing,
            valid_emails(incoming),
        ),
{
    let v = valid_emails(incoming);
    lemma_merged_holds_all(existing, v);
    lemma_merged_absorbs(merged(existing, v), v);
}

} // verus!
