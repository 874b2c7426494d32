use vstd::prelude::*;
use crate::text::{spec_lines, split_source};

verus! {

/// Anything that can serve as source text: a raw string, which is split at
/// line endings, or lines that are already separated.
pub trait IntoSourceCode: Sized {
    /// The lines this value stands for.
    spec fn spec_source_lines(&self) -> Seq<Seq<char>>;

    /// Turn the value into its ordered lines, without line terminators.
    fn into_lines(self) -> (r: Vec<String>)
        ensures
            r@.map_values(|l: String| l@) == self.spec_source_lines(),
    ;
}

impl IntoSourceCode for Vec<String> {
    open spec fn spec_source_lines(&self) -> Seq<Seq<char>> {
        self@.map_values(|l: String| l@)
    }

    fn into_lines(self) -> (r: Vec<String>) {
        self
    }
}

impl IntoSourceCode for Vec<&str> {
    open spec fn spec_source_lines(&self) -> Seq<Seq<char>> {
        self@.map_values(|l: &str| l@)
    }

    #[verifier::loop_isolation(false)]
    fn into_lines(self) -> (r: Vec<String>) {
        let ghost m = self@.map_values(|l: &str| l@);
        let mut lines: Vec<String> = Vec::new();
        let mut i: usize = 0;
        proof {
            assert(lines@.map_values(|l: String| l@) =~= m.subrange(0, 0));
        }
        while i < self.len()
            invariant
                i <= self@.len(),
                lines@.map_values(|l: String| l@) == m.subrange(0, i as int),
            decreases self@.len() - i,
        {
            let owned = self[i].to_owned();
            proof {
                assert(owned@ == m[i as int]);
                assert(lines@.push(owned).map_values(|l: String| l@) =~= lines@.map_values(
                    |l: String| l@,
                ).push(owned@));
                assert(lines@.map_values(|l: String| l@).push(owned@) =~= m.subrange(0, i + 1));
            }
            lines.push(owned);
            i += 1;
        }
        proof {
            assert(m.subrange(0, i as int) =~= m);
        }
        lines
    }
}

impl IntoSourceCode for &str {
    open spec fn spec_source_lines(&self) -> Seq<Seq<char>> {
        spec_lines(self@)
    }

    fn into_lines(self) -> (r: Vec<String>) {
        split_source(self)
    }
}

impl IntoSourceCode for String {
    open spec fn spec_source_lines(&self) -> Seq<Seq<char>> {
        spec_lines(self@)
    }

    fn into_lines(self) -> (r: Vec<String>) {
        split_source(self.as_str())
    }
}

impl IntoSourceCode for &String {
    open spec fn spec_source_lines(&self) -> Seq<Seq<char>> {
        spec_lines(self@)
    }

    fn into_lines(self) -> (r: Vec<String>) {
        split_source(self.as_str())
    }
}

} // verus!
