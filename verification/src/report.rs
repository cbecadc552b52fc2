//! The error reporter: a closed set of error codes, each mapped to one
//! fixed message; any other code falls back to a caller-supplied free-text
//! description. Every error is followed by a constant hint pointing at the
//! help command. The reporter only builds text; the caller prints it.

use vstd::prelude::*;
use vstd::string::StringExecFns;

verus! {

/// The message body for each error code; any code outside the enumeration
/// falls back to the caller-supplied description.
pub open spec fn message_of(desc: Seq<char>, opt: int) -> Seq<char> {
    if opt == 1 {
        "número incorrecto de parametros o sintaxis incorrecta"@
    } else if opt == 2 {
        "los atributos del comando no son los correctos"@
    } else if opt == 3 {
        "opción desconocida"@
    } else if opt == 4 {
        "el ID no existe"@
    } else if opt == 5 {
        "el ID ya existe"@
    } else {
        desc
    }
}

/// The full error line: a fixed prefix followed by the message for the
/// code.
pub open spec fn error_text(desc: Seq<char>, opt: int) -> Seq<char> {
    "\nError, "@ + message_of(desc, opt)
}

/// The constant hint that accompanies every error.
pub open spec fn hint_text() -> Seq<char> {
    "Escriba '--help' para obtener más información.\n"@
}

/// The printable error line for code `opt`, with `desc` as the fallback
/// body for codes outside the enumeration.
pub fn error(desc: &str, opt: i32) -> (r: String)
    ensures
        r@ == error_text(desc@, opt as int),
{
    let mut s = "\nError, ".to_owned();
    if opt == 1 {
        s.append("número incorrecto de parametros o sintaxis incorrecta");
    } else if opt == 2 {
        s.append("los atributos del comando no son los correctos");
    } else if opt == 3 {
        s.append("opción desconocida");
    } else if opt == 4 {
        s.append("el ID no existe");
    } else if opt == 5 {
        s.append("el ID ya existe");
    } else {
        s.append(desc);
    }
    s
}

/// The help hint printed after every error line.
pub fn help_hint() -> (r: &'static str)
    ensures
        r@ == hint_text(),
{
    "Escriba '--help' para obtener más información.\n"
}

} // verus!
