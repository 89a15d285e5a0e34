//! Command arguments as the command framework reads them: the text after
//! the command, split at spaces.

use vstd::prelude::*;

verus! {

/// The first argument of the argument text `text`, as serenity's
/// `Args::single::<String>` takes it (`None` when there is no argument); a
/// function of the text alone.
pub uninterp spec fn first_argument(text: Seq<char>) -> Option<Seq<char>>;

/// The argument text from the second argument on, as serenity's
/// `Args::rest` gives it after one `single`; a function of the text alone.
pub uninterp spec fn rest_after_first(text: Seq<char>) -> Seq<char>;

/// Reads the argument text `text` with `serenity::framework::standard::Args`
/// and the framework's delimiter (one space): takes the first argument with
/// `single::<String>` and then the rest with `rest`. Its results are named
/// `first_argument` and `rest_after_first`; nothing more is stated of them.
#[verifier::external_body]
pub(crate) fn split_arguments(text: &str) -> (r: (Option<String>, String))
    ensures
        r.0.deep_view() == first_argument(text@),
        r.1@ == rest_after_first(text@),
{
    let delimiters = [serenity::framework::standard::Delimiter::Single(' ')];
    let mut args = serenity::framework::standard::Args::new(text, &delimiters);
    let first = args.single::<String>().ok();
    (first, args.rest().to_string())
}

} // verus!
