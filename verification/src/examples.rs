//! Pre-made example parameter combinations, looked up by name.

use vstd::prelude::*;

use crate::text::str_eq;

verus! {

/// A named, pre-made parameter combination.
#[derive(Debug, Clone, Copy)]
pub struct Example {
    pub name: &'static str,
    pub description: &'static str,
    pub params: &'static str,
}

/// The parameter string of the example with the given name, if one
/// exists.
pub open spec fn example_params_for(name: Seq<char>) -> Option<Seq<char>> {
    if name == "basic"@ {
        Some("hoodies/baerskin4-black"@)
    } else if name == "full-outfit"@ {
        Some("hoodies/baerskin4-black,pants/cargo-darkgreen,hats/beanie-black"@)
    } else if name == "with-patches"@ {
        Some("hoodies/baerskin4-black,patches-left/americanflagpatch-red"@)
    } else if name == "jacket-outfit"@ {
        Some("hoodies/baerskin4-black,jackets/softshell-grey,pants/cargo-black"@)
    } else if name == "gloves-hat"@ {
        Some(
            "hoodies/baerskin4-black,pants/cargo-black,hats/beanie-black,gloves/baerskinleatherlinedgloves-black"@,
        )
    } else if name == "outer-jacket"@ {
        Some("hoodies/baerskin4-black,jackets/greenland-black,pants/cargo-darkgreen"@)
    } else {
        None
    }
}

/// Look an example up by name.
pub fn get_example(name: &str) -> (r: Option<Example>)
    ensures
        match r {
            Some(e) => example_params_for(name@) == Some(e.params@) && e.name@ == name@,
            None => example_params_for(name@) is None,
        },
{
    if str_eq(name, "basic") {
        Some(
            Example {
                name: "basic",
                description: "Single black hoodie on front view",
                params: "hoodies/baerskin4-black",
            },
        )
    } else if str_eq(name, "full-outfit") {
        Some(
            Example {
                name: "full-outfit",
                description: "Complete outfit: hoodie, pants, and beanie",
                params: "hoodies/baerskin4-black,pants/cargo-darkgreen,hats/beanie-black",
            },
        )
    } else if str_eq(name, "with-patches") {
        Some(
            Example {
                name: "with-patches",
                description: "Hoodie with American flag patch on left",
                params: "hoodies/baerskin4-black,patches-left/americanflagpatch-red",
            },
        )
    } else if str_eq(name, "jacket-outfit") {
        Some(
            Example {
                name: "jacket-outfit",
                description: "Jacket over hoodie with pants",
                params: "hoodies/baerskin4-black,jackets/softshell-grey,pants/cargo-black",
            },
        )
    } else if str_eq(name, "gloves-hat") {
        Some(
            Example {
                name: "gloves-hat",
                description: "Full winter outfit with gloves and hat",
                params: "hoodies/baerskin4-black,pants/cargo-black,hats/beanie-black,gloves/baerskinleatherlinedgloves-black",
            },
        )
    } else if str_eq(name, "outer-jacket") {
        Some(
            Example {
                name: "outer-jacket",
                description: "Greenland outer jacket over hoodie",
                params: "hoodies/baerskin4-black,jackets/greenland-black,pants/cargo-darkgreen",
            },
        )
    } else {
        None
    }
}

} // verus!
