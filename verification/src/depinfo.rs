//! The dependency listing that the compiler writes beside a unit's output:
//! rules of the form `target: prerequisite prerequisite ..`, one to a line,
//! where a backslash at the end of a line lets the rule go on in the next.

use vstd::prelude::*;
use vstd::string::{StrSliceExecFns, StringExecFns};

use crate::collections::views;
use crate::paths::{name_view, path_file_name, path_file_name_of};
use crate::text::{
    lines, split_lines, split_whitespace, str_equal, to_chars, words,
};

verus! {

/// Why a dependency listing cannot be read.
#[derive(Debug, Clone, Copy, PartialEq, Eq, Structural)]
pub enum DepInfoError {
    /// A backslash ends the last line of the listing, or ends a word that no
    /// word follows in its rule.
    TrailingBackslash,
}

impl DepInfoError {
    /// The text of the error.
    pub open spec fn text(self) -> Seq<char> {
        "malformed dep-info format, trailing \\"@
    }

    /// The text of the error.
    pub fn message(&self) -> (text: String)
        ensures
            text@ == self.text(),
    {
        String::from_str("malformed dep-info format, trailing \\")
    }
}

/// A rule as plain values: its target and its prerequisites.
pub type RuleView = (Seq<char>, Seq<Seq<char>>);

/// The rules of a listing as plain values.
pub open spec fn rule_views(rules: Seq<(String, Vec<String>)>) -> Seq<RuleView> {
    rules.map_values(|r: (String, Vec<String>)| (r.0@, views(r.1@)))
}

/// The first place at or after `from` where `line` holds a colon and then a
/// space, if there is one.
pub open spec fn find_colon_space(line: Seq<char>, from: int) -> Option<int>
    decreases line.len() - from,
{
    if from < 0 || from + 1 >= line.len() {
        None
    } else if line[from] == ':' && line[from + 1] == ' ' {
        Some(from)
    } else {
        find_colon_space(line, from + 1)
    }
}

/// The file names that the words from place `from` on spell, behind those in
/// `done`. A word that ends in a backslash goes on: the backslash stands for
/// a space, and the next word follows it. `pending` is the file name being
/// read. Nothing is spelled where a backslash ends the last word.
pub open spec fn join_continued(
    tokens: Seq<Seq<char>>,
    from: int,
    pending: Option<Seq<char>>,
    done: Seq<Seq<char>>,
) -> Option<Seq<Seq<char>>>
    decreases tokens.len() - from, (if pending is Some { 1int } else { 0int }),
{
    match pending {
        Some(file) => {
            if file.len() > 0 && file.last() == '\\' {
                if 0 <= from < tokens.len() {
                    join_continued(
                        tokens,
                        from + 1,
                        Some(file.drop_last().push(' ') + tokens[from]),
                        done,
                    )
                } else {
                    None
                }
            } else {
                join_continued(tokens, from, None, done.push(file))
            }
        },
        None => {
            if 0 <= from < tokens.len() {
                join_continued(tokens, from + 1, Some(tokens[from]), done)
            } else {
                Some(done)
            }
        },
    }
}

/// The file names that a rule's words spell.
pub open spec fn file_names(tokens: Seq<Seq<char>>) -> Option<Seq<Seq<char>>> {
    join_continued(tokens, 0, None, Seq::empty())
}

/// What one line says: nothing where it holds no colon followed by a space;
/// else a rule whose target stands before the first such colon, and whose
/// prerequisites are spelled by the words behind that colon and space.
pub open spec fn rule_of_line(line: Seq<char>) -> Option<Result<RuleView, DepInfoError>> {
    match find_colon_space(line, 0) {
        None => None,
        Some(pos) => Some(
            match file_names(words(line.skip(pos + 2))) {
                Some(files) => Ok((line.take(pos), files)),
                None => Err(DepInfoError::TrailingBackslash),
            },
        ),
    }
}

/// The rules of the lines from place `from` on, behind those in `done`: the
/// first line that cannot be read is the error.
pub open spec fn rules_from(all: Seq<Seq<char>>, from: int, done: Seq<RuleView>) -> Result<
    Seq<RuleView>,
    DepInfoError,
>
    decreases all.len() - from,
{
    if from < 0 || from >= all.len() {
        Ok(done)
    } else {
        match rule_of_line(all[from]) {
            None => rules_from(all, from + 1, done),
            Some(Err(e)) => Err(e),
            Some(Ok(rule)) => rules_from(all, from + 1, done.push(rule)),
        }
    }
}

/// Whether a line goes on in the next one: its last character is a backslash.
pub open spec fn is_continued(line: Seq<char>) -> bool {
    line.len() > 0 && line.last() == '\\'
}

/// The lines from place `from` on, each joined with the lines that continue
/// it, behind those in `done`. A line that ends in a backslash goes on in the
/// next: the backslash and the line end stand for one space. `pending` is
/// what was read of a line that goes on. Nothing is given where the last line
/// ends in a backslash.
pub open spec fn join_lines_from(
    all: Seq<Seq<char>>,
    from: int,
    pending: Option<Seq<char>>,
    done: Seq<Seq<char>>,
) -> Option<Seq<Seq<char>>>
    decreases all.len() - from,
{
    if from < 0 || from >= all.len() {
        match pending {
            Some(_) => None,
            None => Some(done),
        }
    } else {
        let line = match pending {
            Some(head) => head + all[from],
            None => all[from],
        };
        if is_continued(all[from]) {
            join_lines_from(all, from + 1, Some(line.drop_last().push(' ')), done)
        } else {
            join_lines_from(all, from + 1, None, done.push(line))
        }
    }
}

/// The lines of a listing, each joined with the lines that continue it.
pub open spec fn joined_lines(all: Seq<Seq<char>>) -> Option<Seq<Seq<char>>> {
    join_lines_from(all, 0, None, Seq::empty())
}

/// The rules that a dependency listing holds: those of its lines, once each
/// line that ends in a backslash is joined with the line after it.
pub open spec fn dep_info_rules(contents: Seq<char>) -> Result<Seq<RuleView>, DepInfoError> {
    match joined_lines(lines(contents)) {
        Some(joined) => rules_from(joined, 0, Seq::empty()),
        None => Err(DepInfoError::TrailingBackslash),
    }
}

/// Joins each line that ends in a backslash with the line after it.
fn join_lines(all: &Vec<String>) -> (joined: Option<Vec<String>>)
    ensures
        match joined {
            Some(list) => joined_lines(views(all@)) == Some(views(list@)),
            None => joined_lines(views(all@)) is None,
        },
{
    let ghost physical = views(all@);
    let mut done: Vec<String> = Vec::new();
    let mut head = String::new();
    let mut open = false;
    let mut i: usize = 0;
    assert(views(done@) =~= Seq::<Seq<char>>::empty());
    while i < all.len()
        invariant
            physical == views(all@),
            i <= all.len(),
            !open ==> head@ == Seq::<char>::empty(),
            join_lines_from(
                physical,
                i as int,
                if open {
                    Some(head@)
                } else {
                    None
                },
                views(done@),
            ) == joined_lines(physical),
        decreases all.len() - i,
    {
        let next = all[i].as_str();
        assert(physical[i as int] == next@);
        let ghost before = head@;
        let mut line = head;
        line.append(next);
        assert(!open ==> line@ =~= next@);
        let n = next.unicode_len();
        if n > 0 && next.get_char(n - 1) == '\\' {
            proof {
                reveal_strlit(" ");
            }
            let m = line.as_str().unicode_len();
            let mut longer = line.as_str().substring_char(0, m - 1).to_owned();
            longer.append(" ");
            assert(longer@ =~= line@.drop_last().push(' '));
            head = longer;
            open = true;
        } else {
            let ghost earlier = views(done@);
            done.push(line);
            assert(views(done@) =~= earlier.push(line@));
            head = String::new();
            open = false;
        }
        i += 1;
    }
    if open {
        None
    } else {
        Some(done)
    }
}

/// Finds the first colon followed by a space.
fn locate_colon_space(line: &str) -> (at: Option<usize>)
    ensures
        at matches Some(pos) ==> find_colon_space(line@, 0) == Some(pos as int) && pos + 2
            <= line@.len(),
        at is None ==> find_colon_space(line@, 0) is None,
{
    let chars = to_chars(line);
    if chars.len() < 2 {
        return None;
    }
    let last = chars.len() - 1;
    let mut i: usize = 0;
    while i < last
        invariant
            chars@ == line@,
            last + 1 == chars.len(),
            i <= last,
            find_colon_space(line@, i as int) == find_colon_space(line@, 0),
        decreases last - i,
    {
        if chars[i] == ':' && chars[i + 1] == ' ' {
            return Some(i);
        }
        i += 1;
    }
    None
}

/// Joins the words of a rule into file names.
fn join_words(tokens: &Vec<String>) -> (files: Option<Vec<String>>)
    ensures
        match files {
            Some(names) => file_names(views(tokens@)) == Some(views(names@)),
            None => file_names(views(tokens@)) is None,
        },
{
    let ghost words = views(tokens@);
    let mut done: Vec<String> = Vec::new();
    let mut i: usize = 0;
    assert(views(done@) =~= Seq::<Seq<char>>::empty());
    while i < tokens.len()
        invariant
            words == views(tokens@),
            i <= tokens.len(),
            join_continued(words, i as int, None, views(done@)) == file_names(words),
        decreases tokens.len() - i,
    {
        let ghost entry = i;
        let mut file = tokens[i].clone();
        assert(file@ == words[i as int]);
        i += 1;
        let mut more = true;
        while more
            invariant
                words == views(tokens@),
                entry < i <= tokens.len(),
                more ==> join_continued(words, i as int, Some(file@), views(done@))
                    == file_names(words),
                !more ==> join_continued(words, i as int, None, views(done@).push(file@))
                    == file_names(words),
            decreases tokens.len() - i, (if more { 1int } else { 0int }),
        {
            let n = file.as_str().unicode_len();
            if n > 0 && file.as_str().get_char(n - 1) == '\\' {
                if i >= tokens.len() {
                    return None;
                }
                proof {
                    reveal_strlit(" ");
                }
                let ghost before = file@;
                let mut longer = file.as_str().substring_char(0, n - 1).to_owned();
                longer.append(" ");
                longer.append(tokens[i].as_str());
                assert(longer@ =~= before.drop_last().push(' ') + words[i as int]);
                file = longer;
                i += 1;
            } else {
                more = false;
            }
        }
        let ghost earlier = views(done@);
        done.push(file);
        assert(views(done@) =~= earlier.push(file@));
    }
    Some(done)
}

/// Parse the `.d` dep-info file generated by rustc.
///
/// Result is a Vec of `(target, prerequisites)` tuples where `target` is the
/// rule name, and `prerequisites` is a list of files that it depends on. A
/// rule goes on in the next line where its line ends in a backslash.
pub fn parse_rustc_dep_info(contents: &str) -> (result: Result<
    Vec<(String, Vec<String>)>,
    DepInfoError,
>)
    ensures
        match result {
            Ok(rules) => dep_info_rules(contents@) == Ok::<Seq<RuleView>, DepInfoError>(
                rule_views(rules@),
            ),
            Err(e) => dep_info_rules(contents@) == Err::<Seq<RuleView>, DepInfoError>(e),
        },
{
    let physical = split_lines(contents);
    assert(views(physical@) =~= lines(contents@));
    let all = match join_lines(&physical) {
        Some(joined) => joined,
        None => {
            return Err(DepInfoError::TrailingBackslash);
        },
    };
    let ghost all_views = views(all@);
    let mut rules: Vec<(String, Vec<String>)> = Vec::new();
    let mut i: usize = 0;
    assert(rule_views(rules@) =~= Seq::<RuleView>::empty());
    while i < all.len()
        invariant
            views(all@) == all_views,
            joined_lines(lines(contents@)) == Some(all_views),
            i <= all.len(),
            rules_from(all_views, i as int, rule_views(rules@)) == rules_from(
                all_views,
                0,
                Seq::empty(),
            ),
        decreases all.len() - i,
    {
        let line = all[i].as_str();
        assert(all_views[i as int] == line@);
        match locate_colon_space(line) {
            None => {},
            Some(pos) => {
                let n = line.unicode_len();
                let target = line.substring_char(0, pos).to_owned();
                assert(line@.subrange(0, pos as int) =~= line@.take(pos as int));
                let rest = line.substring_char(pos + 2, n);
                assert(line@.subrange(pos + 2, n as int) =~= line@.skip(pos + 2));
                let tokens = split_whitespace(rest);
                assert(views(tokens@) == words(rest@));
                match join_words(&tokens) {
                    None => {
                        assert(rule_of_line(line@) == Some(
                            Err::<RuleView, DepInfoError>(DepInfoError::TrailingBackslash),
                        ));
                        return Err(DepInfoError::TrailingBackslash);
                    },
                    Some(files) => {
                        let ghost earlier = rule_views(rules@);
                        let ghost rule = (target@, views(files@));
                        rules.push((target, files));
                        assert(rule_views(rules@) =~= earlier.push(rule));
                    },
                }
            },
        }
        i += 1;
    }
    Ok(rules)
}

/// The strings of `items`, copied.
pub fn clone_strings(items: &Vec<String>) -> (copy: Vec<String>)
    ensures
        views(copy@) == views(items@),
{
    let mut copy: Vec<String> = Vec::new();
    let mut i: usize = 0;
    while i < items.len()
        invariant
            i <= items.len(),
            views(copy@) == views(items@).take(i as int),
        decreases items.len() - i,
    {
        let ghost earlier = views(copy@);
        copy.push(items[i].clone());
        assert(views(copy@) =~= earlier.push(items[i as int]@));
        assert(views(items@).take(i + 1) =~= views(items@).take(i as int).push(items[i as int]@));
        i += 1;
    }
    assert(views(items@).take(items.len() as int) =~= views(items@));
    copy
}

/// The rules of one unit's dependency listing, with the name of that listing.
#[derive(Debug)]
pub struct DepInfo {
    pub di: Vec<(String, Vec<String>)>,
    pub f_name: String,
}

/// The names as plain values.
pub open spec fn name_views(names: Seq<Option<String>>) -> Seq<Option<Seq<char>>> {
    names.map_values(|n: Option<String>| name_view(n))
}

/// The first place at or after `from` whose name is `wanted`, if there is one.
pub open spec fn find_name(names: Seq<Option<Seq<char>>>, wanted: Seq<char>, from: int) -> Option<
    int,
>
    decreases names.len() - from,
{
    if from < 0 || from >= names.len() {
        None
    } else if names[from] == Some(wanted) {
        Some(from)
    } else {
        find_name(names, wanted, from + 1)
    }
}

/// The prerequisites of the first rule whose target is a file named `wanted`,
/// where `names[i]` is the file name of the target of rule `i`; none where no
/// rule has such a target.
pub open spec fn prerequisites_of(
    rules: Seq<RuleView>,
    names: Seq<Option<Seq<char>>>,
    wanted: Seq<char>,
) -> Seq<Seq<char>> {
    match find_name(names, wanted, 0) {
        Some(i) => rules[i].1,
        None => Seq::empty(),
    }
}

/// The prerequisites of the first rule whose target is a file named `wanted`.
pub fn select_prerequisites(
    rules: &Vec<(String, Vec<String>)>,
    names: &Vec<Option<String>>,
    wanted: &str,
) -> (deps: Vec<String>)
    requires
        names.len() == rules.len(),
    ensures
        views(deps@) == prerequisites_of(rule_views(rules@), name_views(names@), wanted@),
{
    let ghost all = name_views(names@);
    let mut i: usize = 0;
    while i < names.len()
        invariant
            names.len() == rules.len(),
            all == name_views(names@),
            i <= names.len(),
            find_name(all, wanted@, i as int) == find_name(all, wanted@, 0),
        decreases names.len() - i,
    {
        let hit = match &names[i] {
            Some(name) => str_equal(name.as_str(), wanted),
            None => false,
        };
        assert(hit == (all[i as int] == Some(wanted@)));
        if hit {
            return clone_strings(&rules[i].1);
        }
        i += 1;
    }
    let deps: Vec<String> = Vec::new();
    assert(views(deps@) =~= Seq::<Seq<char>>::empty());
    deps
}

/// The file name of each rule's target.
pub open spec fn target_names(rules: Seq<RuleView>) -> Seq<Option<Seq<char>>> {
    rules.map_values(|r: RuleView| path_file_name_of(r.0))
}

/// The prerequisites of a unit's own output, by its dependency listing: those
/// of the first rule whose target is a file with the listing's name.
pub open spec fn own_prerequisites(rules: Seq<RuleView>, f_name: Seq<char>) -> Seq<Seq<char>> {
    prerequisites_of(rules, target_names(rules), f_name)
}

impl DepInfo {
    /// The prerequisites of the unit's own output: those of the first rule
    /// whose target has the listing's file name.
    pub fn deps_of_depfile(&self) -> (deps: Vec<String>)
        ensures
            views(deps@) == own_prerequisites(rule_views(self.di@), self.f_name@),
    {
        let ghost rules = rule_views(self.di@);
        let mut names: Vec<Option<String>> = Vec::new();
        let mut i: usize = 0;
        assert(name_views(names@) =~= target_names(rules).take(0));
        while i < self.di.len()
            invariant
                rules == rule_views(self.di@),
                i <= self.di.len(),
                names.len() == i,
                name_views(names@) == target_names(rules).take(i as int),
            decreases self.di.len() - i,
        {
            let ghost earlier = name_views(names@);
            let name = path_file_name(self.di[i].0.as_str());
            assert(rules[i as int].0 == self.di[i as int].0@);
            let ghost view = name_view(name);
            names.push(name);
            assert(name_views(names@) =~= earlier.push(view));
            assert(target_names(rules).take(i + 1) =~= target_names(rules).take(i as int).push(
                view,
            ));
            i += 1;
        }
        assert(target_names(rules).take(self.di.len() as int) =~= target_names(rules));
        select_prerequisites(&self.di, &names, self.f_name.as_str())
    }
}

} // verus!
