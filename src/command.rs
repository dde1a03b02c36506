use vstd::prelude::*;

use crate::error::ErrorKind;
use crate::reference::{has_two_colons, parse_image, reference_of, ImageReference};

verus! {

/// What to run: an image, an executable inside it, and its arguments.
pub struct CommandSpec {
    pub image: ImageReference,
    pub executable: String,
    pub args: Vec<String>,
}

/// Reads `<program> run <image> <command> <arg>...`: the image reference is
/// the third word, the executable the fourth, and the rest are its
/// arguments.
pub fn parse_arguments(args: &Vec<String>) -> (r: Result<CommandSpec, ErrorKind>)
    ensures
        args@.len() < 4 ==> r == Err::<CommandSpec, ErrorKind>(ErrorKind::Usage),
        args@.len() >= 4 && has_two_colons(args@[2]@) ==> r == Err::<CommandSpec, ErrorKind>(
            ErrorKind::InvalidReference,
        ),
        args@.len() >= 4 && !has_two_colons(args@[2]@) ==> r is Ok,
        r is Ok ==> {
            let c = r->Ok_0;
            &&& reference_of(args@[2]@) == Some((c.image.name@, c.image.tag@))
            &&& c.executable == args@[3]
            &&& c.args@ == args@.skip(4)
        },
{
    if args.len() < 4 {
        return Err(ErrorKind::Usage);
    }
    let image = match parse_image(args[2].as_str()) {
        Ok(p) => p,
        Err(e) => return Err(e),
    };
    let mut rest: Vec<String> = Vec::new();
    let mut i: usize = 4;
    while i < args.len()
        invariant
            4 <= i <= args@.len(),
            rest@ == args@.subrange(4, i as int),
        decreases args@.len() - i,
    {
        rest.push(args[i].clone());
        assert(rest@ =~= args@.subrange(4, i + 1));
        i = i + 1;
    }
    assert(rest@ =~= args@.skip(4));
    Ok(CommandSpec { image, executable: args[3].clone(), args: rest })
}

/// The process's own exit code: the command's, or `1` where the command
/// has none (it was ended by a signal).
pub fn get_status_code(code: Option<i32>) -> (r: i32)
    ensures
        r == match code {
            Some(n) => n,
            None => 1,
        },
{
    match code {
        Some(n) => n,
        None => 1,
    }
}

} // verus!
