//! Where a stand-in for the child finds the configuration it was given.

use vstd::prelude::*;
use vstd::string::*;
use crate::text::{chars_of, push_char, same_text};

verus! {

/// The prefix directory and the configuration file that the child was
/// started with, as Unix paths.
#[derive(Debug, Clone, PartialEq, Eq)]
pub struct Nginx {
    prefix: String,
    conf: String,
}

/// Why the arguments describe no child.
#[derive(Debug, Clone, Copy, PartialEq, Eq, Structural)]
pub enum NginxArgsError {
    /// `-p` was the last argument.
    PrefixWithoutValue,
    /// `-c` was the last argument.
    ConfWithoutValue,
    /// No `-p` was given.
    NoPrefix,
}

/// Whether the path begins at the root.
pub open spec fn is_absolute(path: Seq<char>) -> bool {
    path.len() > 0 && path[0] == '/'
}

/// The path `rel` taken from the directory `base`: `rel` itself where it
/// is absolute or `base` is empty, else `base`, one `/` unless `base`
/// ends in one, and `rel`.
pub open spec fn path_join(base: Seq<char>, rel: Seq<char>) -> Seq<char> {
    if is_absolute(rel) || base.len() == 0 {
        rel
    } else if base.last() == '/' {
        base + rel
    } else {
        base + seq!['/'] + rel
    }
}

/// The prefix and the configuration file that the arguments name: the
/// values behind the last `-p` and the last `-c`. A value is taken as it
/// stands, so that `-p -c` has the prefix `-c`.
pub open spec fn nginx_of_args(args: Seq<Seq<char>>) -> Result<
    (Seq<char>, Option<Seq<char>>),
    NginxArgsError,
> {
    match scanned(args, None, None) {
        Err(e) => Err(e),
        Ok((None, _)) => Err(NginxArgsError::NoPrefix),
        Ok((Some(prefix), conf)) => Ok((prefix, conf)),
    }
}

/// What is known of prefix and configuration file once `args` are read,
/// given what was known before.
pub open spec fn scanned(
    args: Seq<Seq<char>>,
    prefix: Option<Seq<char>>,
    conf: Option<Seq<char>>,
) -> Result<(Option<Seq<char>>, Option<Seq<char>>), NginxArgsError>
    decreases args.len(),
{
    if args.len() == 0 {
        Ok((prefix, conf))
    } else if args[0] == "-p"@ {
        if args.len() < 2 {
            Err(NginxArgsError::PrefixWithoutValue)
        } else {
            scanned(args.skip(2), Some(args[1]), conf)
        }
    } else if args[0] == "-c"@ {
        if args.len() < 2 {
            Err(NginxArgsError::ConfWithoutValue)
        } else {
            scanned(args.skip(2), prefix, Some(args[1]))
        }
    } else {
        scanned(args.drop_first(), prefix, conf)
    }
}

impl Nginx {
    /// The prefix directory.
    pub closed spec fn prefix(&self) -> Seq<char> {
        self.prefix@
    }

    /// The configuration file, as given.
    pub closed spec fn conf(&self) -> Seq<char> {
        self.conf@
    }

    /// A child in `prefix` that reads `conf`, or `conf/nginx.conf` where
    /// none is given.
    pub fn new(prefix: String, conf: Option<String>) -> (nginx: Nginx)
        ensures
            nginx.prefix() == prefix@,
            nginx.conf() == match conf {
                Some(conf) => conf@,
                None => "conf/nginx.conf"@,
            },
    {
        let conf = match conf {
            Some(conf) => conf,
            None => String::from_str("conf/nginx.conf"),
        };
        Nginx { prefix, conf }
    }

    /// Reads prefix and configuration file from the arguments of a command
    /// line.
    pub fn try_from_args(args: &Vec<String>) -> (r: Result<Nginx, NginxArgsError>)
        ensures
            match r {
                Ok(nginx) => nginx_of_args(crate::text::texts(args@)) matches Ok((prefix, conf))
                    && nginx.prefix() == prefix && nginx.conf() == match conf {
                    Some(conf) => conf,
                    None => "conf/nginx.conf"@,
                },
                Err(e) => nginx_of_args(crate::text::texts(args@)) == Err::<
                    (Seq<char>, Option<Seq<char>>),
                    _,
                >(e),
            },
    {
        let ghost all = crate::text::texts(args@);
        let mut prefix: Option<String> = None;
        let mut conf: Option<String> = None;
        let mut i: usize = 0;
        assert(all.skip(0) == all);
        while i < args.len()
            invariant
                i <= args.len(),
                all == crate::text::texts(args@),
                scanned(all, None, None) == scanned(
                    all.skip(i as int),
                    crate::lua::option_text(prefix),
                    crate::lua::option_text(conf),
                ),
            decreases args.len() - i,
        {
            let ghost rest = all.skip(i as int);
            assert(rest.drop_first() == all.skip(i + 1));
            let opt = args[i].as_str();
            if same_text(opt, "-p") {
                if i + 1 >= args.len() {
                    return Err(NginxArgsError::PrefixWithoutValue);
                }
                assert(rest.skip(2) == all.skip(i + 2));
                prefix = Some(args[i + 1].clone());
                i = i + 2;
            } else if same_text(opt, "-c") {
                if i + 1 >= args.len() {
                    return Err(NginxArgsError::ConfWithoutValue);
                }
                assert(rest.skip(2) == all.skip(i + 2));
                conf = Some(args[i + 1].clone());
                i = i + 2;
            } else {
                i = i + 1;
            }
        }
        match prefix {
            Some(prefix) => Ok(Nginx::new(prefix, conf)),
            None => Err(NginxArgsError::NoPrefix),
        }
    }

    /// The configuration file's path: as given where that is absolute,
    /// else taken from the prefix directory.
    pub fn conf_filename(&self) -> (path: String)
        ensures
            path@ == path_join(self.prefix(), self.conf()),
    {
        let conf = chars_of(self.conf.as_str());
        let prefix = chars_of(self.prefix.as_str());
        if (conf.len() > 0 && conf[0] == '/') || prefix.len() == 0 {
            self.conf.clone()
        } else {
            let mut path = self.prefix.clone();
            if prefix[prefix.len() - 1] != '/' {
                push_char(&mut path, '/');
            }
            path.append(self.conf.as_str());
            path
        }
    }
}

} // verus!
