use vstd::prelude::*;

verus! {

/// Tools for which a compiled binary is the preferred install path.
pub fn supported_compiled_tools() -> (tools: [&'static str; 5])
    ensures
        tools[0]@ == "chezmoi"@,
        tools[1]@ == "atuin"@,
        tools[2]@ == "just"@,
        tools[3]@ == "direnv"@,
        tools[4]@ == "bun"@,
{
    ["chezmoi", "atuin", "just", "direnv", "bun"]
}

/// Tools that are only supported through a compatibility fallback.
pub fn supported_fallback_tools() -> (tools: [&'static str; 1])
    ensures
        tools[0]@ == "npm"@,
{
    ["npm"]
}

} // verus!
