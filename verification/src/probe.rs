//! The memory probe: a search from the command line.

use vstd::prelude::*;

use crate::{numerals, text};

verus! {

/// What the arguments of a probe ask for.
pub struct ProbeOptions {
    pub basedir: String,
    pub query: String,
    pub limit: usize,
    pub archive: bool,
    pub reindex: bool,
}

/// What the options of a probe hold.
#[verifier::ext_equal]
pub struct ProbeView {
    pub basedir: Seq<char>,
    pub query: Seq<char>,
    pub limit: usize,
    pub archive: bool,
    pub reindex: bool,
}

impl View for ProbeOptions {
    type V = ProbeView;

    open spec fn view(&self) -> ProbeView {
        ProbeView {
            basedir: self.basedir@,
            query: self.query@,
            limit: self.limit,
            archive: self.archive,
            reindex: self.reindex,
        }
    }
}

/// The options without arguments.
pub open spec fn default_options() -> ProbeView {
    ProbeView {
        basedir: "./basedir"@,
        query: Seq::empty(),
        limit: 5,
        archive: false,
        reindex: false,
    }
}

/// The limit that a text gives: five where it is no number, and at least one.
pub open spec fn limit_of(s: Seq<char>) -> usize {
    match numerals::unsigned_of(s) {
        Some(n) => if n > usize::MAX {
            5
        } else if n == 0 {
            1
        } else {
            n as usize
        },
        None => 5,
    }
}

/// The options after the arguments from position `i` on; what is not known is passed over, and a
/// name without a value at the end changes nothing.
pub open spec fn options_of(args: Seq<Seq<char>>, i: int, o: ProbeView) -> ProbeView
    decreases args.len() - i,
{
    if i < 0 || i >= args.len() {
        o
    } else if args[i] == "--basedir"@ {
        if i + 1 < args.len() {
            options_of(args, i + 2, ProbeView { basedir: args[i + 1], ..o })
        } else {
            o
        }
    } else if args[i] == "--query"@ {
        if i + 1 < args.len() {
            options_of(args, i + 2, ProbeView { query: args[i + 1], ..o })
        } else {
            o
        }
    } else if args[i] == "--limit"@ {
        if i + 1 < args.len() {
            options_of(args, i + 2, ProbeView { limit: limit_of(args[i + 1]), ..o })
        } else {
            o
        }
    } else if args[i] == "--archive"@ {
        options_of(args, i + 1, ProbeView { archive: true, ..o })
    } else if args[i] == "--reindex"@ {
        options_of(args, i + 1, ProbeView { reindex: true, ..o })
    } else {
        options_of(args, i + 1, o)
    }
}

/// The limit that a text gives.
fn read_limit(s: &str) -> (r: usize)
    ensures
        r == limit_of(s@),
        r >= 1,
{
    match numerals::read_unsigned(s) {
        Some(n) => if n > usize::MAX as u64 {
            5
        } else if n == 0 {
            1
        } else {
            n as usize
        },
        None => 5,
    }
}

/// What the arguments of a probe ask for.
pub fn parse_options(args: &Vec<String>) -> (r: ProbeOptions)
    ensures
        r@ == options_of(text::texts(args@), 0, default_options()),
{
    let ghost all = text::texts(args@);
    let mut o = ProbeOptions {
        basedir: "./basedir".to_string(),
        query: String::new(),
        limit: 5,
        archive: false,
        reindex: false,
    };
    let mut i: usize = 0;
    assert(o@ == default_options());
    while i < args.len()
        invariant
            i <= args@.len(),
            all == text::texts(args@),
            options_of(all, 0, default_options()) == options_of(all, i as int, o@),
        decreases args@.len() - i,
    {
        let ghost before = o@;
        let name = args[i].as_str();
        assert(all[i as int] == name@);
        let has_value = args.len() - i > 1;
        if text::same(name, "--basedir") {
            if !has_value {
                return o;
            }
            assert(all[i + 1] == args@[i + 1]@);
            o.basedir = args[i + 1].clone();
            assert(o@ == (ProbeView { basedir: all[i + 1], ..before }));
            i += 2;
        } else if text::same(name, "--query") {
            if !has_value {
                return o;
            }
            assert(all[i + 1] == args@[i + 1]@);
            o.query = args[i + 1].clone();
            assert(o@ == (ProbeView { query: all[i + 1], ..before }));
            i += 2;
        } else if text::same(name, "--limit") {
            if !has_value {
                return o;
            }
            assert(all[i + 1] == args@[i + 1]@);
            o.limit = read_limit(args[i + 1].as_str());
            assert(o@ == (ProbeView { limit: limit_of(all[i + 1]), ..before }));
            i += 2;
        } else if text::same(name, "--archive") {
            o.archive = true;
            assert(o@ == (ProbeView { archive: true, ..before }));
            i += 1;
        } else if text::same(name, "--reindex") {
            o.reindex = true;
            assert(o@ == (ProbeView { reindex: true, ..before }));
            i += 1;
        } else {
            i += 1;
        }
    }
    o
}

/// The lines that a probe prints for the rows it found: each behind its number, from one on.
pub open spec fn report_lines(rows: Seq<Seq<char>>) -> Seq<Seq<char>> {
    if rows.len() == 0 {
        seq!["(no results)"@]
    } else {
        Seq::new(rows.len(), |i: int| numerals::decimal((i + 1) as nat) + ". "@ + rows[i])
    }
}

/// The lines that a probe prints for the rows it found.
pub fn report(rows: &Vec<String>) -> (r: Vec<String>)
    ensures
        text::texts(r@) == report_lines(text::texts(rows@)),
{
    let mut out: Vec<String> = Vec::new();
    if rows.len() == 0 {
        out.push("(no results)".to_string());
        assert(text::texts(out@) =~= seq!["(no results)"@]);
        return out;
    }
    let mut i: usize = 0;
    while i < rows.len()
        invariant
            i <= rows@.len(),
            out@.len() == i,
            forall|j: int|
                0 <= j < i ==> (#[trigger] out@[j])@ == numerals::decimal((j + 1) as nat) + ". "@
                    + rows@[j]@,
        decreases rows@.len() - i,
    {
        let mut line = numerals::write_decimal((i + 1) as u64);
        line.append(". ");
        line.append(rows[i].as_str());
        out.push(line);
        i += 1;
    }
    assert(text::texts(out@) =~= report_lines(text::texts(rows@)));
    out
}

} // verus!
