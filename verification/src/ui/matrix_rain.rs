//! The characters of the rain that falls behind the terminal.

use crate::text::chars_of;
use vstd::prelude::*;
use vstd::string::*;

verus! {

/// The characters that the rain is made of: the half-width katakana, the
/// digits, and the capital letters of the Latin alphabet.
pub open spec fn rain_characters() -> Seq<char> {
    Seq::new(
        92,
        |i: int|
            if i < 56 {
                (0xFF66 + i) as char
            } else if i < 66 {
                ('0' as int + (i - 56)) as char
            } else {
                ('A' as int + (i - 66)) as char
            },
    )
}

/// Characters used for the rain: half-width katakana, digits, some Latin.
pub fn rain_charset() -> (chars: Vec<char>)
    ensures
        chars@ == rain_characters(),
{
    proof {
        reveal_strlit("ｦｧｨｩｪｫｬｭｮｯｰｱｲｳｴｵｶｷｸｹｺｻｼｽｾｿﾀﾁﾂﾃﾄﾅﾆﾇﾈﾉﾊﾋﾌﾍﾎﾏﾐﾑﾒﾓﾔﾕﾖﾗﾘﾙﾚﾛﾜﾝ0123456789ABCDEFGHIJKLMNOPQRSTUVWXYZ");
    }
    let chars = chars_of("ｦｧｨｩｪｫｬｭｮｯｰｱｲｳｴｵｶｷｸｹｺｻｼｽｾｿﾀﾁﾂﾃﾄﾅﾆﾇﾈﾉﾊﾋﾌﾍﾎﾏﾐﾑﾒﾓﾔﾕﾖﾗﾘﾙﾚﾛﾜﾝ0123456789ABCDEFGHIJKLMNOPQRSTUVWXYZ");
    assert(chars@ =~= rain_characters());
    chars
}

} // verus!
