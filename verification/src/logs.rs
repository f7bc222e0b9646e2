//! The log file: how a record is written, and the last lines shown to the
//! user.
use crate::text::{append_str, lines, lines_str, string_of, views, str_views};
use vstd::prelude::*;

verus! {

/// The last `n` lines of `content` (all of them when there are fewer).
pub open spec fn recent_lines_spec(content: Seq<char>, n: nat) -> Seq<Seq<char>> {
    let ls = lines(content);
    if ls.len() <= n {
        ls
    } else {
        ls.skip(ls.len() - n)
    }
}

/// One record: `[{time}] [{level}] {message}`.
pub fn log_record(time: &str, level: &str, message: &str) -> (r: String)
    ensures
        r@ == "["@ + time@ + "] ["@ + level@ + "] "@ + message@,
{
    let mut r = "[".to_owned();
    append_str(&mut r, time);
    append_str(&mut r, "] [");
    append_str(&mut r, level);
    append_str(&mut r, "] ");
    append_str(&mut r, message);
    r
}

/// The last `n` lines of the log's content.
pub fn get_recent_logs(content: &str, n: usize) -> (r: Vec<String>)
    ensures
        str_views(r@) == recent_lines_spec(content@, n as nat),
{
    let ls = lines_str(content);
    let start: usize = if ls.len() >= n {
        ls.len() - n
    } else {
        0
    };
    let ghost all = views(ls@);
    let ghost want = recent_lines_spec(content@, n as nat);
    proof {
        assert(want =~= all.skip(start as int));
    }
    let mut out: Vec<String> = Vec::new();
    let mut i = start;
    while i < ls.len()
        invariant
            start <= i <= ls@.len(),
            all == views(ls@),
            want == all.skip(start as int),
            str_views(out@) == want.take(i - start),
        decreases ls.len() - i,
    {
        let ghost o0 = out@;
        out.push(string_of(&ls[i]));
        proof {
            assert(str_views(out@) =~= str_views(o0).push(ls@[i as int]@));
            assert(want.take(i - start + 1) =~= want.take(i - start).push(want[i - start]));
        }
        i = i + 1;
    }
    proof {
        assert(want.take(ls.len() - start) =~= want);
    }
    out
}

} // verus!
