//! Run options, and the parsing of the enumeration names a user may give.

use vstd::prelude::*;

use crate::error::Error;
use crate::error::ErrorV;
use crate::item::ListType;
use crate::item::Sort;

verus! {

/// Options as the command line leaves them: the user may still be absent,
/// to be filled from the configuration or by a prompt.
#[derive(Debug)]
pub struct InputOptions {
    pub save: bool,
    pub user: Option<String>,
    pub list: ListType,
    pub help: bool,
    pub sort: Sort,
    pub no_cache: bool,
    pub ignore_config: bool,
}

impl InputOptions {
    /// The options before any argument is read: fetch the manga list,
    /// highest progress first, using cache and configuration.
    pub fn new() -> (r: InputOptions)
        ensures
            !r.save,
            r.user is None,
            r.list == ListType::Manga,
            !r.help,
            r.sort == Sort::Desc,
            !r.no_cache,
            !r.ignore_config,
    {
        InputOptions {
            save: false,
            user: None,
            list: ListType::Manga,
            help: false,
            sort: Sort::Desc,
            no_cache: false,
            ignore_config: false,
        }
    }

    pub fn set_help(&mut self)
        ensures
            *final(self) == (InputOptions { help: true, ..*old(self) }),
    {
        self.help = true;
    }

    pub fn set_save(&mut self)
        ensures
            *final(self) == (InputOptions { save: true, ..*old(self) }),
    {
        self.save = true;
    }

    pub fn set_no_cache(&mut self)
        ensures
            *final(self) == (InputOptions { no_cache: true, ..*old(self) }),
    {
        self.no_cache = true;
    }

    pub fn set_ignore_config(&mut self)
        ensures
            *final(self) == (InputOptions { ignore_config: true, ..*old(self) }),
    {
        self.ignore_config = true;
    }
}

/// Options of a run once a user is settled.
#[derive(Debug)]
pub struct Options {
    pub save: bool,
    pub user: String,
    pub list: ListType,
    pub sort: Sort,
    pub no_cache: bool,
    pub ignore_config: bool,
}

impl Options {
    /// Settle the input options; the user must have been filled in by then.
    pub fn from_input(input: InputOptions) -> (r: Options)
        requires
            input.user is Some,
        ensures
            r.save == input.save,
            r.user == input.user->0,
            r.list == input.list,
            r.sort == input.sort,
            r.no_cache == input.no_cache,
            r.ignore_config == input.ignore_config,
    {
        let user = match input.user {
            Some(u) => u,
            None => {
                proof {
                    assert(false);
                }
                String::new()
            },
        };
        Options {
            save: input.save,
            user,
            list: input.list,
            sort: input.sort,
            ignore_config: input.ignore_config,
            no_cache: input.no_cache,
        }
    }
}

/// The mathematical value of an [`InputOptions`].
pub ghost struct InputOptionsV {
    pub save: bool,
    pub user: Option<Seq<char>>,
    pub list: ListType,
    pub help: bool,
    pub sort: Sort,
    pub no_cache: bool,
    pub ignore_config: bool,
}

impl View for InputOptions {
    type V = InputOptionsV;

    open spec fn view(&self) -> InputOptionsV {
        InputOptionsV {
            save: self.save,
            user: match self.user {
                Some(u) => Some(u@),
                None => None,
            },
            list: self.list,
            help: self.help,
            sort: self.sort,
            no_cache: self.no_cache,
            ignore_config: self.ignore_config,
        }
    }
}

/// The options before any argument is read.
pub open spec fn spec_default_options() -> InputOptionsV {
    InputOptionsV {
        save: false,
        user: None,
        list: ListType::Manga,
        help: false,
        sort: Sort::Desc,
        no_cache: false,
        ignore_config: false,
    }
}

/// The values of an argument list.
pub open spec fn arg_views(args: Seq<String>) -> Seq<Seq<char>> {
    args.map_values(|a: String| a@)
}

/// What a run of bundled short flags does from position `i` on: each
/// character sets its flag, and any other character fails the whole
/// argument.
pub open spec fn spec_bundle(opts: InputOptionsV, a: Seq<char>, i: int) -> Result<
    InputOptionsV,
    ErrorV,
>
    decreases a.len() - i,
{
    if i >= a.len() {
        Ok(opts)
    } else if a[i] == 'h' {
        spec_bundle(InputOptionsV { help: true, ..opts }, a, i + 1)
    } else if a[i] == 's' {
        spec_bundle(InputOptionsV { save: true, ..opts }, a, i + 1)
    } else if a[i] == 'n' {
        spec_bundle(InputOptionsV { no_cache: true, ..opts }, a, i + 1)
    } else if a[i] == 'i' {
        spec_bundle(InputOptionsV { ignore_config: true, ..opts }, a, i + 1)
    } else {
        Err(ErrorV::ArgumentError(a))
    }
}

/// The argument grammar, one argument at a time: long flags set an option;
/// `--user`, `--list` and `--sort` take the next argument as their value,
/// and leave the default when none follows; anything else beginning with a
/// dash is a bundle of short flags; anything else is an unknown argument.
pub open spec fn spec_from_args(opts: InputOptionsV, args: Seq<Seq<char>>) -> Result<
    InputOptionsV,
    ErrorV,
>
    decreases args.len(),
{
    if args.len() == 0 {
        Ok(opts)
    } else {
        let a = args[0];
        let rest = args.drop_first();
        if a == "--help"@ {
            spec_from_args(InputOptionsV { help: true, ..opts }, rest)
        } else if a == "--save"@ {
            spec_from_args(InputOptionsV { save: true, ..opts }, rest)
        } else if a == "--user"@ {
            if rest.len() == 0 {
                Ok(opts)
            } else {
                spec_from_args(InputOptionsV { user: Some(rest[0]), ..opts }, rest.drop_first())
            }
        } else if a == "--list"@ {
            if rest.len() == 0 {
                Ok(opts)
            } else if lower_seq(rest[0]) == "manga"@ {
                spec_from_args(InputOptionsV { list: ListType::Manga, ..opts }, rest.drop_first())
            } else if lower_seq(rest[0]) == "anime"@ {
                spec_from_args(InputOptionsV { list: ListType::Anime, ..opts }, rest.drop_first())
            } else {
                Err(ErrorV::ListError(lower_seq(rest[0])))
            }
        } else if a == "--manga"@ {
            spec_from_args(InputOptionsV { list: ListType::Manga, ..opts }, rest)
        } else if a == "--anime"@ {
            spec_from_args(InputOptionsV { list: ListType::Anime, ..opts }, rest)
        } else if a == "--sort"@ {
            if rest.len() == 0 {
                Ok(opts)
            } else if lower_seq(rest[0]) == "asc"@ {
                spec_from_args(InputOptionsV { sort: Sort::Asc, ..opts }, rest.drop_first())
            } else if lower_seq(rest[0]) == "desc"@ {
                spec_from_args(InputOptionsV { sort: Sort::Desc, ..opts }, rest.drop_first())
            } else {
                Err(ErrorV::SortError(lower_seq(rest[0])))
            }
        } else if a == "--no-cache"@ {
            spec_from_args(InputOptionsV { no_cache: true, ..opts }, rest)
        } else if a == "--no-ignore-config"@ {
            spec_from_args(InputOptionsV { ignore_config: true, ..opts }, rest)
        } else if a.len() > 0 && a[0] == '-' {
            match spec_bundle(opts, a, 1) {
                Ok(o2) => spec_from_args(o2, rest),
                Err(e) => Err(e),
            }
        } else {
            Err(ErrorV::ArgumentError(a))
        }
    }
}

impl InputOptions {
    /// Parse command-line arguments, starting from the defaults. The
    /// caller hands the arguments over without the program name.
    pub fn from_args(args: Vec<String>) -> (r: Result<InputOptions, Error>)
        ensures
            (r is Ok) == (spec_from_args(spec_default_options(), arg_views(args@)) is Ok),
            r matches Ok(o) ==> spec_from_args(spec_default_options(), arg_views(args@)) == Ok::<
                InputOptionsV,
                ErrorV,
            >(o@),
            r matches Err(e) ==> spec_from_args(spec_default_options(), arg_views(args@)) == Err::<
                InputOptionsV,
                ErrorV,
            >(e@),
    {
        let ghost av = arg_views(args@);
        let mut options = InputOptions::new();
        let mut idx: usize = 0;
        proof {
            assert(options@ == spec_default_options());
            assert(av.skip(0) =~= av);
        }
        while idx < args.len()
            invariant
                idx <= args@.len(),
                av == arg_views(args@),
                av.len() == args@.len(),
                spec_from_args(spec_default_options(), av) == spec_from_args(
                    options@,
                    av.skip(idx as int),
                ),
            decreases args@.len() - idx,
        {
            proof {
                assert(av.skip(idx as int).len() > 0);
                assert(av.skip(idx as int)[0] == av[idx as int]);
                assert(av[idx as int] == args@[idx as int]@);
                assert(av.skip(idx as int).drop_first() =~= av.skip(idx + 1));
            }
            let ghost opts_pre = options@;
            let arg = &args[idx];
            if arg.eq(&String::from_str("--help")) {
                options.set_help();
                proof {
                    assert(options@ == (InputOptionsV { help: true, ..opts_pre }));
                }
                idx += 1;
            } else if arg.eq(&String::from_str("--save")) {
                options.set_save();
                proof {
                    assert(options@ == (InputOptionsV { save: true, ..opts_pre }));
                }
                idx += 1;
            } else if arg.eq(&String::from_str("--user")) {
                if idx + 1 < args.len() {
                    proof {
                        assert(av.skip(idx as int).drop_first()[0] == av[idx + 1]);
                        assert(av[idx + 1] == args@[idx + 1]@);
                        assert(av.skip(idx as int).drop_first().drop_first() =~= av.skip(
                            idx + 2,
                        ));
                    }
                    options.user = Some(args[idx + 1].clone());
                    proof {
                        assert(options@ == (InputOptionsV {
                            user: Some(av[idx + 1]),
                            ..opts_pre
                        }));
                    }
                    idx += 2;
                } else {
                    proof {
                        assert(av.skip(idx as int).drop_first().len() == 0);
                        assert(av.skip(idx + 1).len() == 0);
                    }
                    idx += 1;
                }
            } else if arg.eq(&String::from_str("--list")) {
                if idx + 1 < args.len() {
                    proof {
                        assert(av.skip(idx as int).drop_first()[0] == av[idx + 1]);
                        assert(av[idx + 1] == args@[idx + 1]@);
                        assert(av.skip(idx as int).drop_first().drop_first() =~= av.skip(
                            idx + 2,
                        ));
                    }
                    match ListType::from_str(args[idx + 1].as_str()) {
                        Ok(t) => {
                            options.list = t;
                            idx += 2;
                        },
                        Err(e) => {
                            return Err(e);
                        },
                    }
                } else {
                    proof {
                        assert(av.skip(idx + 1).len() == 0);
                    }
                    idx += 1;
                }
            } else if arg.eq(&String::from_str("--manga")) {
                options.list = ListType::Manga;
                proof {
                    assert(options@ == (InputOptionsV { list: ListType::Manga, ..opts_pre }));
                }
                idx += 1;
            } else if arg.eq(&String::from_str("--anime")) {
                options.list = ListType::Anime;
                proof {
                    assert(options@ == (InputOptionsV { list: ListType::Anime, ..opts_pre }));
                }
                idx += 1;
            } else if arg.eq(&String::from_str("--sort")) {
                if idx + 1 < args.len() {
                    proof {
                        assert(av.skip(idx as int).drop_first()[0] == av[idx + 1]);
                        assert(av[idx + 1] == args@[idx + 1]@);
                        assert(av.skip(idx as int).drop_first().drop_first() =~= av.skip(
                            idx + 2,
                        ));
                    }
                    match Sort::from_str(args[idx + 1].as_str()) {
                        Ok(t) => {
                            options.sort = t;
                            idx += 2;
                        },
                        Err(e) => {
                            return Err(e);
                        },
                    }
                } else {
                    proof {
                        assert(av.skip(idx + 1).len() == 0);
                    }
                    idx += 1;
                }
            } else if arg.eq(&String::from_str("--no-cache")) {
                options.set_no_cache();
                proof {
                    assert(options@ == (InputOptionsV { no_cache: true, ..opts_pre }));
                }
                idx += 1;
            } else if arg.eq(&String::from_str("--no-ignore-config")) {
                options.set_ignore_config();
                proof {
                    assert(options@ == (InputOptionsV { ignore_config: true, ..opts_pre }));
                }
                idx += 1;
            } else {
                let a_len = arg.unicode_len();
                let dash = if a_len > 0 {
                    arg.get_char(0) == '-'
                } else {
                    false
                };
                if !dash {
                    return Err(Error::ArgumentError(arg.clone()));
                }
                let ghost a = av[idx as int];
                proof {
                    assert(a == arg@);
                    assert(a.len() > 0 && a[0] == '-');
                }
                let mut j: usize = 1;
                while j < a_len
                    invariant
                        1 <= j <= a_len,
                        a_len == a.len(),
                        a == arg@,
                        av == arg_views(args@),
                        av.len() == args@.len(),
                        idx < args@.len(),
                        spec_from_args(spec_default_options(), av) == (match spec_bundle(
                            options@,
                            a,
                            j as int,
                        ) {
                            Ok(o2) => spec_from_args(o2, av.skip(idx + 1)),
                            Err(e) => Err(e),
                        }),
                    decreases a_len - j,
                {
                    let ghost opts_b = options@;
                    let c = arg.get_char(j);
                    proof {
                        assert(a[j as int] == c);
                    }
                    if c == 'h' {
                        options.set_help();
                        proof {
                            assert(options@ == (InputOptionsV { help: true, ..opts_b }));
                        }
                    } else if c == 's' {
                        options.set_save();
                        proof {
                            assert(options@ == (InputOptionsV { save: true, ..opts_b }));
                        }
                    } else if c == 'n' {
                        options.set_no_cache();
                        proof {
                            assert(options@ == (InputOptionsV { no_cache: true, ..opts_b }));
                        }
                    } else if c == 'i' {
                        options.set_ignore_config();
                        proof {
                            assert(options@ == (InputOptionsV { ignore_config: true, ..opts_b }));
                        }
                    } else {
                        proof {
                            assert(spec_bundle(options@, a, j as int) == Err::<
                                InputOptionsV,
                                ErrorV,
                            >(ErrorV::ArgumentError(a)));
                        }
                        return Err(Error::ArgumentError(arg.clone()));
                    }
                    j += 1;
                }
                proof {
                    assert(spec_bundle(options@, a, j as int) == Ok::<InputOptionsV, ErrorV>(
                        options@,
                    ));
                }
                idx += 1;
            }
        }
        proof {
            assert(av.skip(idx as int).len() == 0);
            assert(spec_from_args(options@, av.skip(idx as int)) == Ok::<InputOptionsV, ErrorV>(
                options@,
            ));
        }
        Ok(options)
    }
}

/// A Latin capital letter folded to its small form; any other character
/// kept as it is.
pub open spec fn lower_char(c: char) -> char {
    if 65 <= c as int && c as int <= 90 {
        (((c as u8) + 32) as char)
    } else {
        c
    }
}

/// A character sequence folded letter by letter.
pub open spec fn lower_seq(s: Seq<char>) -> Seq<char> {
    s.map_values(|c: char| lower_char(c))
}

fn to_lower(c: char) -> (r: char)
    ensures
        r == lower_char(c),
{
    let u = c as u32;
    if 65 <= u && u <= 90 {
        ((u as u8) + 32) as char
    } else {
        c
    }
}

/// The small form of the `k`-th Latin capital letter, as a borrowed string.
fn lower_alpha_str(k: usize) -> (r: &'static str)
    requires
        k < 26,
    ensures
        r@ == seq![(((97 + k) as u8) as char)],
{
    let lit = "abcdefghijklmnopqrstuvwxyz";
    proof {
        reveal_strlit("abcdefghijklmnopqrstuvwxyz");
        assert(lit.is_ascii());
    }
    let r = lit.substring_ascii(k, k + 1);
    proof {
        assert(r@ =~= seq![lit@[k as int]]);
        assert(lit@[k as int] == (((97 + k) as u8) as char));
    }
    r
}

/// The whole string folded letter by letter; parse errors carry this form,
/// so their message names the name as matched, not as typed.
fn lower_string(s: &str) -> (r: String)
    ensures
        r@ == lower_seq(s@),
{
    let n = s.unicode_len();
    let mut out = String::new();
    proof {
        assert(out@ =~= lower_seq(s@).take(0));
    }
    for i in 0..n
        invariant
            n == s@.len(),
            out@ == lower_seq(s@).take(i as int),
    {
        let c = s.get_char(i);
        let u = c as u32;
        if 65 <= u && u <= 90 {
            out.append(lower_alpha_str((u - 65) as usize));
        } else {
            out.append(s.substring_char(i, i + 1));
            proof {
                assert(s@.subrange(i as int, i + 1) =~= seq![s@[i as int]]);
            }
        }
        proof {
            assert(lower_seq(s@)[i as int] == lower_char(s@[i as int]));
            assert(out@ =~= lower_seq(s@).take(i + 1));
        }
    }
    proof {
        assert(lower_seq(s@).take(n as int) =~= lower_seq(s@));
    }
    out
}

/// Whether `s`, folded letter by letter, reads exactly as `t`.
fn lower_matches(s: &str, t: &str) -> (r: bool)
    ensures
        r == (lower_seq(s@) == t@),
{
    let n = s.unicode_len();
    if n != t.unicode_len() {
        proof {
            assert(lower_seq(s@).len() == s@.len());
        }
        return false;
    }
    for i in 0..n
        invariant
            n == s@.len(),
            n == t@.len(),
            forall|k: int| 0 <= k < i ==> lower_seq(s@)[k] == t@[k],
    {
        let c = to_lower(s.get_char(i));
        let d = t.get_char(i);
        if c != d {
            proof {
                assert(lower_seq(s@)[i as int] != t@[i as int]);
            }
            return false;
        }
    }
    proof {
        assert(lower_seq(s@) =~= t@);
    }
    true
}

impl ListType {
    /// The list kind a string names, ignoring letter case: `manga` or
    /// `anime`. Any other string is an error carrying the folded string.
    pub fn from_str(s: &str) -> (r: Result<ListType, Error>)
        ensures
            lower_seq(s@) == "manga"@ ==> r == Ok::<ListType, Error>(ListType::Manga),
            lower_seq(s@) == "anime"@ ==> r == Ok::<ListType, Error>(ListType::Anime),
            (r is Err) == !(lower_seq(s@) == "manga"@ || lower_seq(s@) == "anime"@),
            r matches Err(e) ==> e matches Error::ListError(v) && v@ == lower_seq(s@),
    {
        proof {
            reveal_strlit("manga");
            reveal_strlit("anime");
            assert("manga"@[0] != "anime"@[0]);
        }
        if lower_matches(s, "manga") {
            Ok(ListType::Manga)
        } else if lower_matches(s, "anime") {
            Ok(ListType::Anime)
        } else {
            Err(Error::ListError(lower_string(s)))
        }
    }
}

impl Sort {
    /// The sort direction a string names, ignoring letter case: `asc` or
    /// `desc`. Any other string is an error carrying the folded string.
    pub fn from_str(s: &str) -> (r: Result<Sort, Error>)
        ensures
            lower_seq(s@) == "asc"@ ==> r == Ok::<Sort, Error>(Sort::Asc),
            lower_seq(s@) == "desc"@ ==> r == Ok::<Sort, Error>(Sort::Desc),
            (r is Err) == !(lower_seq(s@) == "asc"@ || lower_seq(s@) == "desc"@),
            r matches Err(e) ==> e matches Error::SortError(v) && v@ == lower_seq(s@),
    {
        proof {
            reveal_strlit("asc");
            reveal_strlit("desc");
            assert("asc"@.len() != "desc"@.len());
        }
        if lower_matches(s, "asc") {
            Ok(Sort::Asc)
        } else if lower_matches(s, "desc") {
            Ok(Sort::Desc)
        } else {
            Err(Error::SortError(lower_string(s)))
        }
    }
}

} // verus!
