use vstd::prelude::*;

verus! {

/// The pieces of `text` between the occurrences of `sep` (as
/// `str::split` gives them: one more piece than separators).
pub open spec fn split_on(text: Seq<char>, sep: char) -> Seq<Seq<char>>
    decreases text.len(),
{
    if text.len() == 0 {
        seq![Seq::<char>::empty()]
    } else {
        let before = split_on(text.drop_last(), sep);
        if text.last() == sep {
            before.push(Seq::<char>::empty())
        } else {
            before.update(before.len() - 1, before.last().push(text.last()))
        }
    }
}

/// Splitting gives at least one piece.
pub proof fn lemma_split_on_len(text: Seq<char>, sep: char)
    ensures
        split_on(text, sep).len() >= 1,
    decreases text.len(),
{
    if text.len() > 0 {
        lemma_split_on_len(text.drop_last(), sep);
    }
}

/// The texts of a list of pieces.
pub open spec fn texts<'a>(pieces: Seq<&'a str>) -> Seq<Seq<char>> {
    pieces.map_values(|p: &'a str| p@)
}

/// Splits `text` on `sep` (see `split_on`).
pub fn split_text<'a>(text: &'a str, sep: char) -> (pieces: Vec<&'a str>)
    ensures
        texts(pieces@) == split_on(text@, sep),
{
    let n = text.unicode_len();
    let mut pieces: Vec<&'a str> = Vec::new();
    let mut start: usize = 0;
    let mut i: usize = 0;
    proof {
        assert(text@.take(0) =~= Seq::<char>::empty());
        assert(texts(pieces@).push(text@.subrange(0, 0)) =~= seq![Seq::<char>::empty()]);
    }
    while i < n
        invariant
            i <= n,
            n == text@.len(),
            start <= i,
            texts(pieces@).push(text@.subrange(start as int, i as int)) == split_on(text@.take(i as int), sep),
        decreases n - i,
    {
        let c = text.get_char(i);
        proof {
            assert(text@.take(i + 1).drop_last() =~= text@.take(i as int));
            assert(text@.take(i + 1).last() == c);
            lemma_split_on_len(text@.take(i as int), sep);
        }
        if c == sep {
            let piece = text.substring_char(start, i);
            let ghost before = texts(pieces@);
            pieces.push(piece);
            start = i + 1;
            proof {
                assert(texts(pieces@) =~= before.push(piece@));
                assert(text@.subrange(start as int, i + 1) =~= Seq::<char>::empty());
            }
        } else {
            proof {
                assert(text@.subrange(start as int, i + 1) =~= text@.subrange(start as int, i as int).push(c));
                assert(texts(pieces@).push(text@.subrange(start as int, i + 1)) =~= texts(pieces@).push(
                    text@.subrange(start as int, i as int),
                ).update(texts(pieces@).len() as int, text@.subrange(start as int, i as int).push(c)));
            }
        }
        i = i + 1;
    }
    let last = text.substring_char(start, n);
    let ghost before = texts(pieces@);
    pieces.push(last);
    proof {
        assert(texts(pieces@) =~= before.push(last@));
        assert(text@.take(n as int) =~= text@);
    }
    pieces
}

/// Marks the spans of `text` written between back-quotes as code: the
/// pieces between back-quotes, every second one (from the second on)
/// being code.
pub fn format_code<'a>(text: &'a str) -> (spans: Vec<(&'a str, bool)>)
    ensures
        spans@.len() == split_on(text@, '`').len(),
        forall|i: int| 0 <= i < spans@.len() ==> {
            &&& (#[trigger] spans@[i]).0@ == split_on(text@, '`')[i]
            &&& spans@[i].1 == (i % 2 == 1)
        },
{
    let pieces = split_text(text, '`');
    let mut spans: Vec<(&'a str, bool)> = Vec::new();
    let mut i: usize = 0;
    while i < pieces.len()
        invariant
            i <= pieces@.len(),
            texts(pieces@) == split_on(text@, '`'),
            spans@.len() == i,
            forall|j: int| 0 <= j < i ==> {
                &&& (#[trigger] spans@[j]).0@ == split_on(text@, '`')[j]
                &&& spans@[j].1 == (j % 2 == 1)
            },
        decreases pieces@.len() - i,
    {
        proof {
            assert(texts(pieces@)[i as int] == pieces@[i as int]@);
        }
        spans.push((pieces[i], i % 2 != 0));
        i = i + 1;
    }
    spans
}

/// The position of the first space of `line`, if any.
pub open spec fn first_space(line: Seq<char>) -> Option<int> {
    if exists|i: int| 0 <= i < line.len() && line[i] == ' ' {
        Some(choose|i: int| 0 <= i < line.len() && line[i] == ' ' && forall|j: int| 0 <= j < i ==> line[j] != ' ')
    } else {
        None
    }
}

/// The state of the change log reader: the version read last, its changes
/// so far, and the versions already closed.
pub struct ChangeLogState {
    pub version: Seq<char>,
    pub changes: Seq<Seq<char>>,
    pub log: Seq<(Seq<char>, Seq<Seq<char>>)>,
}

/// Reads one line of the change log: `## <version>` starts a version,
/// `- <change>` and `* <change>` add a change, other lines with a space
/// are skipped, and a line without a space closes the version with the
/// changes read since the last one closed.
pub open spec fn changelog_step(state: ChangeLogState, line: Seq<char>) -> ChangeLogState {
    match first_space(line) {
        Some(i) => {
            let prefix = line.subrange(0, i);
            let text = line.subrange(i + 1, line.len() as int);
            if prefix == "##"@ {
                ChangeLogState { version: text, ..state }
            } else if prefix == "-"@ || prefix == "*"@ {
                ChangeLogState { changes: state.changes.push(text), ..state }
            } else {
                state
            }
        },
        None => ChangeLogState {
            changes: Seq::empty(),
            log: state.log.push((state.version, state.changes)),
            ..state
        },
    }
}

/// Reads the lines `lines` of the change log from the start.
pub open spec fn changelog_read(lines: Seq<Seq<char>>) -> ChangeLogState
    decreases lines.len(),
{
    if lines.len() == 0 {
        ChangeLogState { version: Seq::empty(), changes: Seq::empty(), log: Seq::empty() }
    } else {
        changelog_step(changelog_read(lines.drop_last()), lines.last())
    }
}

/// The versions of a change log with their changes.
pub open spec fn changelog_of(file: Seq<char>) -> Seq<(Seq<char>, Seq<Seq<char>>)> {
    changelog_read(split_on(file, '\n')).log
}

/// The versions read, as texts.
pub open spec fn log_texts<'a>(log: Seq<(&'a str, Vec<&'a str>)>) -> Seq<(Seq<char>, Seq<Seq<char>>)> {
    log.map_values(|e: (&'a str, Vec<&'a str>)| (e.0@, texts(e.1@)))
}

/// Finds the first space of `line`.
fn find_space(line: &str) -> (res: Option<usize>)
    ensures
        res matches Some(i) ==> i < line@.len() && first_space(line@) == Some(i as int),
        res is None ==> first_space(line@) is None,
{
    let n = line.unicode_len();
    let mut i: usize = 0;
    while i < n
        invariant
            i <= n,
            n == line@.len(),
            forall|j: int| 0 <= j < i ==> line@[j] != ' ',
        decreases n - i,
    {
        if line.get_char(i) == ' ' {
            proof {
                let k = choose|k: int| 0 <= k < line@.len() && line@[k] == ' ' && forall|j: int| 0 <= j < k ==> line@[j] != ' ';
                if k < i {
                } else if k > i {
                    assert(line@[i as int] != ' ');
                }
            }
            return Some(i);
        }
        i = i + 1;
    }
    None
}

/// Whether `a` is the text `b`.
pub fn same_text(a: &str, b: &str) -> (res: bool)
    ensures
        res == (a@ == b@),
{
    let n = a.unicode_len();
    if n != b.unicode_len() {
        return false;
    }
    let mut i: usize = 0;
    while i < n
        invariant
            i <= n,
            n == a@.len(),
            n == b@.len(),
            forall|j: int| 0 <= j < i ==> a@[j] == b@[j],
        decreases n - i,
    {
        if a.get_char(i) != b.get_char(i) {
            return false;
        }
        i = i + 1;
    }
    proof {
        assert(a@ =~= b@);
    }
    true
}

/// Reads a change log (see `changelog_step`): each version with its
/// changes, in the order of the file.
pub fn parse_changelog<'a>(file: &'a str) -> (log: Vec<(&'a str, Vec<&'a str>)>)
    ensures
        log_texts(log@) == changelog_of(file@),
{
    let lines = split_text(file, '\n');
    let mut log: Vec<(&'a str, Vec<&'a str>)> = Vec::new();
    let mut changes: Vec<&'a str> = Vec::new();
    let mut version: &'a str = "";
    proof {
        reveal_strlit("");
        assert(version@ =~= Seq::<char>::empty());
    }
    let mut i: usize = 0;
    proof {
        assert(texts(lines@).take(0) =~= Seq::<Seq<char>>::empty());
        assert(texts(changes@) =~= Seq::<Seq<char>>::empty());
        assert(log_texts(log@) =~= Seq::<(Seq<char>, Seq<Seq<char>>)>::empty());
    }
    while i < lines.len()
        invariant
            i <= lines@.len(),
            texts(lines@) == split_on(file@, '\n'),
            changelog_read(texts(lines@).take(i as int)) == (ChangeLogState {
                version: version@,
                changes: texts(changes@),
                log: log_texts(log@),
            }),
        decreases lines@.len() - i,
    {
        let line = lines[i];
        proof {
            assert(texts(lines@).take(i + 1).drop_last() =~= texts(lines@).take(i as int));
            assert(texts(lines@).take(i + 1).last() == line@);
        }
        match find_space(line) {
            Some(k) => {
                let n = line.unicode_len();
                let prefix = line.substring_char(0, k);
                let text = line.substring_char(k + 1, n);
                proof {
                    reveal_strlit("##");
                    reveal_strlit("-");
                    reveal_strlit("*");
                }
                if same_text(prefix, "##") {
                    version = text;
                } else if same_text(prefix, "-") || same_text(prefix, "*") {
                    let ghost before = texts(changes@);
                    changes.push(text);
                    proof {
                        assert(texts(changes@) =~= before.push(text@));
                    }
                }
            },
            None => {
                let ghost before = log_texts(log@);
                let closed = changes;
                changes = Vec::new();
                log.push((version, closed));
                proof {
                    assert(log_texts(log@) =~= before.push((version@, texts(closed@))));
                    assert(texts(changes@) =~= Seq::<Seq<char>>::empty());
                }
            },
        }
        i = i + 1;
    }
    proof {
        assert(texts(lines@).take(i as int) =~= texts(lines@));
    }
    log
}

/// The pieces `pieces` put back together with `sep` between them.
pub open spec fn join_with(pieces: Seq<Seq<char>>, sep: char) -> Seq<char>
    decreases pieces.len(),
{
    if pieces.len() <= 1 {
        if pieces.len() == 1 { pieces[0] } else { Seq::empty() }
    } else {
        join_with(pieces.drop_last(), sep).push(sep) + pieces.last()
    }
}

/// Appending a character to the last piece appends it to the joined text.
proof fn lemma_join_extend_last(pieces: Seq<Seq<char>>, sep: char, c: char)
    requires
        pieces.len() >= 1,
    ensures
        join_with(pieces.update(pieces.len() - 1, pieces.last().push(c)), sep) == join_with(pieces, sep).push(c),
{
    let updated = pieces.update(pieces.len() - 1, pieces.last().push(c));
    if pieces.len() > 1 {
        assert(updated.drop_last() =~= pieces.drop_last());
        assert(join_with(pieces.drop_last(), sep).push(sep) + pieces.last().push(c) =~= (join_with(
            pieces.drop_last(),
            sep,
        ).push(sep) + pieces.last()).push(c));
    }
}

/// Law: the pieces of a split, joined again with the separator, give back
/// the text, and no piece holds the separator.
pub proof fn law_split_join(text: Seq<char>, sep: char)
    ensures
        join_with(split_on(text, sep), sep) == text,
        forall|i: int| 0 <= i < split_on(text, sep).len() ==> !(#[trigger] split_on(text, sep)[i]).contains(sep),
    decreases text.len(),
{
    if text.len() > 0 {
        let prev = text.drop_last();
        law_split_join(prev, sep);
        lemma_split_on_len(prev, sep);
        let before = split_on(prev, sep);
        let c = text.last();
        if c == sep {
            let after = before.push(Seq::<char>::empty());
            assert(after.drop_last() =~= before);
            assert(join_with(before, sep).push(sep) + Seq::<char>::empty() =~= text);
            assert forall|i: int| 0 <= i < after.len() implies !(#[trigger] after[i]).contains(sep) by {
                if i < before.len() {
                    assert(after[i] == before[i]);
                }
            }
        } else {
            lemma_join_extend_last(before, sep, c);
            assert(prev.push(c) =~= text);
            let after = before.update(before.len() - 1, before.last().push(c));
            assert forall|i: int| 0 <= i < after.len() implies !(#[trigger] after[i]).contains(sep) by {
                if i < before.len() - 1 {
                    assert(after[i] == before[i]);
                } else {
                    assert(!before[i].contains(sep));
                    if after[i].contains(sep) {
                        let k = choose|k: int| 0 <= k < after[i].len() && after[i][k] == sep;
                        if k < before[i].len() {
                            assert(before[i][k] == sep);
                        }
                    }
                }
            }
        }
    } else {
        assert(split_on(text, sep) =~= seq![Seq::<char>::empty()]);
        assert(text =~= Seq::<char>::empty());
    }
}

} // verus!
