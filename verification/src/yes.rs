//! The line that the affirmation tool repeats.
//!
//! The command-line arguments are joined with single spaces; with no
//! arguments the line is `y`.
use vstd::prelude::*;
use vstd::string::*;

verus! {

/// The arguments joined with one space between consecutive arguments.
pub open spec fn spec_join_spaces(args: Seq<Seq<char>>) -> Seq<char>
    decreases args.len(),
{
    if args.len() == 0 {
        Seq::<char>::empty()
    } else if args.len() == 1 {
        args[0]
    } else {
        spec_join_spaces(args.drop_last()) + seq![' '] + args.last()
    }
}

/// The line to repeat: the arguments joined with spaces, or `y` when there
/// are none.
pub fn yes_line(args: &Vec<String>) -> (r: String)
    ensures
        args@.len() == 0 ==> r@ == seq!['y'],
        args@.len() > 0 ==> r@ == spec_join_spaces(args.deep_view()),
{
    let ghost dv = args.deep_view();
    if args.len() == 0 {
        proof {
            reveal_strlit("y");
            assert("y"@ =~= seq!['y']);
        }
        String::from_str("y")
    } else {
        proof {
            reveal_strlit(" ");
            assert(" "@ =~= seq![' ']);
            assert(dv.take(1) =~= seq![dv[0]]);
            assert(dv[0] == args@[0]@);
        }
        let mut r = args[0].clone();
        let mut i: usize = 1;
        while i < args.len()
            invariant
                1 <= i <= args@.len(),
                dv == args.deep_view(),
                dv.len() == args@.len(),
                " "@ == seq![' '],
                r@ == spec_join_spaces(dv.take(i as int)),
            decreases args@.len() - i,
        {
            r.append(" ");
            r.append(args[i].as_str());
            proof {
                assert(dv[i as int] == args@[i as int]@);
                assert(dv.take(i as int + 1).drop_last() =~= dv.take(i as int));
                assert(dv.take(i as int + 1).last() == dv[i as int]);
                assert(r@ =~= spec_join_spaces(dv.take(i as int + 1)));
            }
            i = i + 1;
        }
        proof {
            assert(dv.take(args@.len() as int) =~= dv);
        }
        r
    }
}

} // verus!
