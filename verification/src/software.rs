//! The server software that a Minecraft server can run.

use vstd::prelude::*;
use crate::text::{ascii_lower, str_eq};

verus! {

/// Server software kinds supported for download and launch.
#[derive(Clone, Copy, PartialEq, Eq, Structural, Debug)]
pub enum ServerSoftware {
    Paper,
    Purpur,
    Fabric,
    Forge,
    NeoForge,
}

impl ServerSoftware {
    /// The display name (the `Display` form).
    pub open spec fn name_spec(self) -> Seq<char> {
        match self {
            ServerSoftware::Paper => "Paper"@,
            ServerSoftware::Purpur => "Purpur"@,
            ServerSoftware::Fabric => "Fabric"@,
            ServerSoftware::Forge => "Forge"@,
            ServerSoftware::NeoForge => "NeoForge"@,
        }
    }

    /// The display name in lower case.
    pub open spec fn lower_name_spec(self) -> Seq<char> {
        match self {
            ServerSoftware::Paper => "paper"@,
            ServerSoftware::Purpur => "purpur"@,
            ServerSoftware::Fabric => "fabric"@,
            ServerSoftware::Forge => "forge"@,
            ServerSoftware::NeoForge => "neoforge"@,
        }
    }

    /// The display name, as stored and as shown.
    pub fn name(&self) -> (r: &'static str)
        ensures
            r@ == self.name_spec(),
    {
        match self {
            ServerSoftware::Paper => "Paper",
            ServerSoftware::Purpur => "Purpur",
            ServerSoftware::Fabric => "Fabric",
            ServerSoftware::Forge => "Forge",
            ServerSoftware::NeoForge => "NeoForge",
        }
    }

    /// The display name in lower case (file names use it).
    pub fn lower_name(&self) -> (r: &'static str)
        ensures
            r@ == self.lower_name_spec(),
            r@ == ascii_lower(self.name_spec()),
    {
        proof {
            reveal_strlit("Paper");
            reveal_strlit("Purpur");
            reveal_strlit("Fabric");
            reveal_strlit("Forge");
            reveal_strlit("NeoForge");
            reveal_strlit("paper");
            reveal_strlit("purpur");
            reveal_strlit("fabric");
            reveal_strlit("forge");
            reveal_strlit("neoforge");
            assert(ascii_lower("Paper"@) == "paper"@);
            assert(ascii_lower("Purpur"@) == "purpur"@);
            assert(ascii_lower("Fabric"@) == "fabric"@);
            assert(ascii_lower("Forge"@) == "forge"@);
            assert(ascii_lower("NeoForge"@) == "neoforge"@);
        }
        match self {
            ServerSoftware::Paper => "paper",
            ServerSoftware::Purpur => "purpur",
            ServerSoftware::Fabric => "fabric",
            ServerSoftware::Forge => "forge",
            ServerSoftware::NeoForge => "neoforge",
        }
    }
}

/// Forge and NeoForge come as an installer that builds the server; the
/// others download as a runnable server jar.
pub open spec fn uses_installer_spec(s: ServerSoftware) -> bool {
    s == ServerSoftware::Forge || s == ServerSoftware::NeoForge
}

/// Whether the software is set up by running its installer.
pub fn uses_installer(s: ServerSoftware) -> (r: bool)
    ensures
        r == uses_installer_spec(s),
{
    match s {
        ServerSoftware::Forge | ServerSoftware::NeoForge => true,
        _ => false,
    }
}

/// The software whose display name is `s`, if any.
pub open spec fn software_named(s: Seq<char>) -> Option<ServerSoftware> {
    if s == "Paper"@ {
        Some(ServerSoftware::Paper)
    } else if s == "Purpur"@ {
        Some(ServerSoftware::Purpur)
    } else if s == "Fabric"@ {
        Some(ServerSoftware::Fabric)
    } else if s == "Forge"@ {
        Some(ServerSoftware::Forge)
    } else if s == "NeoForge"@ {
        Some(ServerSoftware::NeoForge)
    } else {
        None
    }
}

/// Reads a software name exactly as stored ("Paper", "Purpur", "Fabric",
/// "Forge", "NeoForge"); any other text is unknown.
pub fn parse_software(s: &str) -> (r: Option<ServerSoftware>)
    ensures
        r == software_named(s@),
{
    if str_eq(s, "Paper") {
        Some(ServerSoftware::Paper)
    } else if str_eq(s, "Purpur") {
        Some(ServerSoftware::Purpur)
    } else if str_eq(s, "Fabric") {
        Some(ServerSoftware::Fabric)
    } else if str_eq(s, "Forge") {
        Some(ServerSoftware::Forge)
    } else if str_eq(s, "NeoForge") {
        Some(ServerSoftware::NeoForge)
    } else {
        None
    }
}

/// Reading back the stored name of a software gives that software.
pub proof fn law_software_name_round_trip(sw: ServerSoftware)
    ensures
        software_named(sw.name_spec()) == Some(sw),
{
    reveal_strlit("Paper");
    reveal_strlit("Purpur");
    reveal_strlit("Fabric");
    reveal_strlit("Forge");
    reveal_strlit("NeoForge");
    assert("Paper"@[0] == 'P' && "Paper"@.len() == 5);
    assert("Purpur"@[1] == 'u' && "Purpur"@.len() == 6);
    assert("Fabric"@[0] == 'F' && "Fabric"@.len() == 6);
    assert("Forge"@[1] == 'o' && "Forge"@.len() == 5);
    assert("NeoForge"@.len() == 8);
    assert("Paper"@ != "Purpur"@);
    assert("Paper"@ != "Fabric"@);
    assert("Paper"@ != "Forge"@ && "Paper"@[1] == 'a');
    assert("Paper"@ != "NeoForge"@);
    assert("Purpur"@ != "Fabric"@);
    assert("Purpur"@ != "Forge"@);
    assert("Purpur"@ != "NeoForge"@);
    assert("Fabric"@ != "Forge"@);
    assert("Fabric"@ != "NeoForge"@);
    assert("Forge"@ != "NeoForge"@);
}

} // verus!
