//! The directory in which the application keeps its files.
use crate::text::{cat, cat3, ends_with, has_prefix, has_suffix, same, starts_with};
use vstd::prelude::*;

verus! {

/// The directory in which the application keeps its files.
#[derive(Debug, Clone)]
pub struct Repo {
    path: String,
}

impl View for Repo {
    type V = Seq<char>;

    closed spec fn view(&self) -> Seq<char> {
        self.path@
    }
}

/// The path of a file in a directory. The empty directory is the one in which the program runs.
pub open spec fn in_directory(dir: Seq<char>, name: Seq<char>) -> Seq<char> {
    if dir.len() == 0 {
        name
    } else if dir.last() == '/' {
        dir + name
    } else {
        dir + "/"@ + name
    }
}

impl Repo {
    pub fn new(path: String) -> (r: Repo)
        ensures
            r@ == path@,
    {
        Repo { path }
    }

    pub fn path(&self) -> (r: &str)
        ensures
            r@ == self@,
    {
        self.path.as_str()
    }

    /// A file of the directory; a name that starts at the root is the path of the file itself.
    pub fn file(&self, name: &str) -> (r: String)
        ensures
            r@ == (if name@.len() > 0 && name@[0] == '/' {
                name@
            } else {
                in_directory(self@, name@)
            }),
    {
        let dir = self.path.as_str();
        proof {
            reveal_strlit("/");
            reveal_strlit("");
            assert("/"@.len() == 1 && "/"@[0] == '/');
            assert(has_prefix(name@, "/"@) == (name@.len() > 0 && name@[0] == '/')) by {
                if name@.len() > 0 && name@[0] == '/' {
                    assert(name@.take(1) =~= "/"@);
                } else if has_prefix(name@, "/"@) {
                    assert(name@.take(1)[0] == name@[0]);
                }
            }
            assert(has_suffix(dir@, "/"@) == (dir@.len() > 0 && dir@.last() == '/')) by {
                if dir@.len() > 0 && dir@.last() == '/' {
                    assert(dir@.skip(dir@.len() - 1) =~= "/"@);
                } else if has_suffix(dir@, "/"@) {
                    assert(dir@.skip(dir@.len() - 1)[0] == dir@.last());
                }
            }
            assert(dir@.len() == 0 ==> dir@ =~= ""@);
        }
        if starts_with(name, "/") || same(dir, "") {
            name.to_owned()
        } else if ends_with(dir, "/") {
            cat(dir, name)
        } else {
            cat3(dir, "/", name)
        }
    }
}

/// A file lies right below its directory, whether or not that is written with a slash at its end.
pub proof fn law_in_directory(dir: Seq<char>, name: Seq<char>)
    requires
        dir.len() > 0,
        dir.last() != '/',
    ensures
        in_directory(dir, name) == dir + seq!['/'] + name,
        in_directory(dir + seq!['/'], name) == dir + seq!['/'] + name,
        in_directory(Seq::empty(), name) == name,
{
    reveal_strlit("/");
    assert("/"@ =~= seq!['/']);
}

} // verus!
