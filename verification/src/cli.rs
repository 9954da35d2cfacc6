//! The command line of the TPC-H evaluation: `--samples N`, `--csv PATH`,
//! `--markdown PATH`, in any order; a later flag overrides an earlier one.
use vstd::prelude::*;

use crate::text::{chars_of, parse_usize, parse_usize_chars, same_chars};

verus! {

/// The options of the evaluation.
pub struct Args {
    /// The number of timed optimizer runs per query.
    pub samples: usize,
    /// Where to write the CSV report, if anywhere.
    pub csv: Option<String>,
    /// Where to write the Markdown report, if anywhere.
    pub markdown: Option<String>,
}

/// A command line the evaluation does not accept.
pub enum ArgsError {
    /// A flag that takes a value ends the command line; carries the flag.
    MissingValue(String),
    /// The value of `--samples` is not an unsigned integer; carries the value.
    InvalidSamples(String),
    /// An argument that is no flag; carries it.
    UnknownFlag(String),
}

/// The mathematical content of [`Args`].
pub struct ArgsView {
    pub samples: usize,
    pub csv: Option<Seq<char>>,
    pub markdown: Option<Seq<char>>,
}

/// The mathematical content of an [`ArgsError`].
pub enum ArgsErrorView {
    MissingValue(Seq<char>),
    InvalidSamples(Seq<char>),
    UnknownFlag(Seq<char>),
}

impl View for Args {
    type V = ArgsView;

    open spec fn view(&self) -> ArgsView {
        ArgsView {
            samples: self.samples,
            csv: match &self.csv {
                Some(s) => Some(s@),
                None => None,
            },
            markdown: match &self.markdown {
                Some(s) => Some(s@),
                None => None,
            },
        }
    }
}

impl View for ArgsError {
    type V = ArgsErrorView;

    open spec fn view(&self) -> ArgsErrorView {
        match self {
            ArgsError::MissingValue(s) => ArgsErrorView::MissingValue(s@),
            ArgsError::InvalidSamples(s) => ArgsErrorView::InvalidSamples(s@),
            ArgsError::UnknownFlag(s) => ArgsErrorView::UnknownFlag(s@),
        }
    }
}

/// The options when no flag is given: 5 samples, no report file.
pub open spec fn default_args() -> ArgsView {
    ArgsView { samples: 5, csv: None, markdown: None }
}

/// Reads the arguments from `i` on into `acc`.
pub open spec fn parse_args_from(args: Seq<Seq<char>>, i: nat, acc: ArgsView) -> Result<ArgsView, ArgsErrorView>
    decreases args.len() - i,
{
    if i >= args.len() {
        Ok(acc)
    } else if args[i as int] == "--samples"@ {
        if i + 1 >= args.len() {
            Err(ArgsErrorView::MissingValue("--samples"@))
        } else {
            match parse_usize(args[i + 1 as int]) {
                Some(n) => parse_args_from(args, i + 2, ArgsView { samples: n, ..acc }),
                None => Err(ArgsErrorView::InvalidSamples(args[i + 1 as int])),
            }
        }
    } else if args[i as int] == "--csv"@ {
        if i + 1 >= args.len() {
            Err(ArgsErrorView::MissingValue("--csv"@))
        } else {
            parse_args_from(args, i + 2, ArgsView { csv: Some(args[i + 1 as int]), ..acc })
        }
    } else if args[i as int] == "--markdown"@ {
        if i + 1 >= args.len() {
            Err(ArgsErrorView::MissingValue("--markdown"@))
        } else {
            parse_args_from(args, i + 2, ArgsView { markdown: Some(args[i + 1 as int]), ..acc })
        }
    } else {
        Err(ArgsErrorView::UnknownFlag(args[i as int]))
    }
}

/// The options of a command line, or why it is not accepted.
pub open spec fn parse_args(args: Seq<Seq<char>>) -> Result<ArgsView, ArgsErrorView> {
    parse_args_from(args, 0, default_args())
}

/// The views of a list of strings.
pub open spec fn arg_views(v: Seq<String>) -> Seq<Seq<char>> {
    Seq::new(v.len(), |i: int| v[i]@)
}

/// Reads a command line (see [`parse_args`]).
fn read_args(args: &Vec<String>) -> (r: Result<Args, ArgsError>)
    ensures
        match (r, parse_args(arg_views(args@))) {
            (Ok(a), Ok(b)) => a@ == b,
            (Err(e), Err(f)) => e@ == f,
            _ => false,
        },
{
    let ghost v = arg_views(args@);
    let samples_flag = chars_of("--samples");
    let csv_flag = chars_of("--csv");
    let markdown_flag = chars_of("--markdown");
    let mut parsed = Args { samples: 5, csv: None, markdown: None };
    let mut i: usize = 0;
    while i < args.len()
        invariant
            v == arg_views(args@),
            samples_flag@ == "--samples"@,
            csv_flag@ == "--csv"@,
            markdown_flag@ == "--markdown"@,
            parse_args(v) == parse_args_from(v, i as nat, parsed@),
        decreases args@.len() - i,
    {
        let a = chars_of(args[i].as_str());
        if same_chars(&a, &samples_flag) {
            if i + 1 >= args.len() {
                return Err(ArgsError::MissingValue(String::from_str("--samples")));
            }
            let value = chars_of(args[i + 1].as_str());
            match parse_usize_chars(&value) {
                Some(n) => {
                    parsed.samples = n;
                },
                None => {
                    return Err(ArgsError::InvalidSamples(args[i + 1].clone()));
                },
            }
        } else if same_chars(&a, &csv_flag) {
            if i + 1 >= args.len() {
                return Err(ArgsError::MissingValue(String::from_str("--csv")));
            }
            parsed.csv = Some(args[i + 1].clone());
        } else if same_chars(&a, &markdown_flag) {
            if i + 1 >= args.len() {
                return Err(ArgsError::MissingValue(String::from_str("--markdown")));
            }
            parsed.markdown = Some(args[i + 1].clone());
        } else {
            return Err(ArgsError::UnknownFlag(args[i].clone()));
        }
        i = i + 2;
    }
    Ok(parsed)
}

/// Why the command line is not accepted, if it is not (see [`parse_args`]).
pub fn check_args(args: &Vec<String>) -> (r: Option<ArgsError>)
    ensures
        r is None <==> parse_args(arg_views(args@)) is Ok,
        r is Some ==> parse_args(arg_views(args@)) == Err::<ArgsView, ArgsErrorView>(r->0@),
{
    match read_args(args) {
        Ok(_) => None,
        Err(e) => Some(e),
    }
}

impl Args {
    /// The options of an accepted command line (see [`parse_args`]).
    pub fn parse(args: &Vec<String>) -> (r: Args)
        requires
            parse_args(arg_views(args@)) is Ok,
        ensures
            parse_args(arg_views(args@)) == Ok::<ArgsView, ArgsErrorView>(r@),
    {
        match read_args(args) {
            Ok(a) => a,
            Err(_) => Args { samples: 5, csv: None, markdown: None },
        }
    }
}

} // verus!
