//! The call stack: an immutable singly-linked list of frame names, grown by
//! `extend` and shared by handle so error reports can show a backtrace
//! without copying.

use vstd::prelude::*;

use std::rc::Rc;

use crate::text;

verus! {

#[derive(Debug)]
pub struct CallStack {
    pub prev: Option<Rc<CallStack>>,
    pub cur: String,
}

impl CallStack {
    /// The sequence of frame names, innermost first.
    pub open spec fn names(self) -> Seq<Seq<char>>
        decreases self,
    {
        match self.prev {
            Option::None => seq![self.cur@],
            Option::Some(p) => seq![self.cur@] + p.names(),
        }
    }

    /// The root stack, holding the single frame "root".
    pub fn root() -> (r: Self)
        ensures
            r.names() == seq!["root"@],
    {
        CallStack { prev: Option::None, cur: "root".to_owned() }
    }

    /// A stack with `cur` pushed in front of `prev`.
    pub fn extend(cur: String, prev: Rc<CallStack>) -> (r: Self)
        ensures
            r.names() == seq![cur@] + prev.names(),
    {
        let ghost c = cur@;
        let r = CallStack { prev: Option::Some(prev), cur };
        assert(r.names() =~= seq![c] + r.prev.unwrap().names());
        r
    }

    /// Every stack has at least its own frame.
    pub proof fn lemma_names_nonempty(&self)
        ensures
            self.names().len() >= 1,
    {
        match self.prev {
            Option::None => {},
            Option::Some(p) => {},
        }
    }

    /// Turn the call stack into a finished version, to be printed: one line
    /// per frame, innermost first, each of the form `\tin "<name>"`.
    pub fn finalize(&self) -> (out: String)
        ensures
            out@ == Self::render(self.names()),
        decreases *self,
    {
        let mut out = String::new();
        out.append("\tin ");
        let quoted = text::quote(self.cur.as_str());
        out.append(quoted.as_str());
        match &self.prev {
            Option::None => {
                proof {
                    reveal_strlit("\tin ");
                    assert(out@ =~= Self::render(self.names()));
                }
                out
            },
            Option::Some(p) => {
                out.append("\n");
                let rest = p.finalize();
                out.append(rest.as_str());
                proof {
                    reveal_strlit("\tin ");
                    reveal_strlit("\n");
                    p.lemma_names_nonempty();
                    assert(self.names() =~= seq![self.cur@] + p.names());
                    assert(self.names().drop_first() =~= p.names());
                    assert(out@ =~= Self::render(self.names()));
                }
                out
            },
        }
    }

    /// What `finalize` produces for a given list of frame names.
    pub open spec fn render(names: Seq<Seq<char>>) -> Seq<char>
        decreases names.len(),
    {
        if names.len() == 0 {
            Seq::empty()
        } else if names.len() == 1 {
            "\tin "@ + text::quoted(names[0])
        } else {
            "\tin "@ + text::quoted(names[0]) + "\n"@ + Self::render(names.drop_first())
        }
    }
}

} // verus!
