//! Languages: ISO 639-1 codes and TMDB markets to three-letter language codes.

use vstd::prelude::*;

use crate::text;
use crate::text::{str_eq, to_ascii_lowercase, to_ascii_uppercase, trimmed};

verus! {

/// The language TMDB's `name`/`title` is written in. Every request goes out without a `language`
/// parameter, so TMDB answers in its default, en-US.
pub const METADATA_LANG3: &'static str = "eng";

/// The ISO 639-3 code of a lower-case ISO 639-1 code: the 639-2/T variant where B and T differ
/// (`deu`, not `ger`). Covers the languages TMDB commonly returns.
pub open spec fn lang3_of_lower_code(code: Seq<char>) -> Option<Seq<char>> {
    if code == "en"@ {
        Some("eng"@)
    } else if code == "ja"@ {
        Some("jpn"@)
    } else if code == "fr"@ {
        Some("fra"@)
    } else if code == "de"@ {
        Some("deu"@)
    } else if code == "es"@ {
        Some("spa"@)
    } else if code == "it"@ {
        Some("ita"@)
    } else if code == "ru"@ {
        Some("rus"@)
    } else if code == "ko"@ {
        Some("kor"@)
    } else if code == "zh"@ {
        Some("zho"@)
    } else if code == "pt"@ {
        Some("por"@)
    } else if code == "nl"@ {
        Some("nld"@)
    } else if code == "sv"@ {
        Some("swe"@)
    } else if code == "no"@ {
        Some("nor"@)
    } else if code == "da"@ {
        Some("dan"@)
    } else if code == "fi"@ {
        Some("fin"@)
    } else if code == "pl"@ {
        Some("pol"@)
    } else if code == "tr"@ {
        Some("tur"@)
    } else if code == "ar"@ {
        Some("ara"@)
    } else if code == "hi"@ {
        Some("hin"@)
    } else if code == "th"@ {
        Some("tha"@)
    } else if code == "vi"@ {
        Some("vie"@)
    } else if code == "id"@ {
        Some("ind"@)
    } else if code == "cs"@ {
        Some("ces"@)
    } else if code == "el"@ {
        Some("ell"@)
    } else if code == "he"@ {
        Some("heb"@)
    } else if code == "hu"@ {
        Some("hun"@)
    } else if code == "ro"@ {
        Some("ron"@)
    } else if code == "uk"@ {
        Some("ukr"@)
    } else if code == "fa"@ {
        Some("fas"@)
    } else if code == "ms"@ {
        Some("msa"@)
    } else if code == "tl"@ {
        Some("tgl"@)
    } else if code == "ca"@ {
        Some("cat"@)
    } else if code == "nb"@ {
        Some("nob"@)
    } else {
        None
    }
}

/// The ISO 639-3 code of an ISO 639-1 code in any ASCII case.
pub open spec fn lang3_of_code(code: Seq<char>) -> Option<Seq<char>> {
    lang3_of_lower_code(text::ascii_lowercase(code))
}

/// Maps an ISO 639-1 (two-letter) code to its ISO 639-3 equivalent. An unknown code gives `None`,
/// so that the caller files the name under `und` rather than under a code of the wrong shape.
pub fn iso639_1_to_3(code: &str) -> (r: Option<&'static str>)
    ensures
        match r {
            Some(lang3) => lang3_of_code(code@) == Some(lang3@),
            None => lang3_of_code(code@) is None,
        },
{
    let lower = to_ascii_lowercase(code);
    let c = lower.as_str();
    if str_eq(c, "en") {
        Some("eng")
    } else if str_eq(c, "ja") {
        Some("jpn")
    } else if str_eq(c, "fr") {
        Some("fra")
    } else if str_eq(c, "de") {
        Some("deu")
    } else if str_eq(c, "es") {
        Some("spa")
    } else if str_eq(c, "it") {
        Some("ita")
    } else if str_eq(c, "ru") {
        Some("rus")
    } else if str_eq(c, "ko") {
        Some("kor")
    } else if str_eq(c, "zh") {
        Some("zho")
    } else if str_eq(c, "pt") {
        Some("por")
    } else if str_eq(c, "nl") {
        Some("nld")
    } else if str_eq(c, "sv") {
        Some("swe")
    } else if str_eq(c, "no") {
        Some("nor")
    } else if str_eq(c, "da") {
        Some("dan")
    } else if str_eq(c, "fi") {
        Some("fin")
    } else if str_eq(c, "pl") {
        Some("pol")
    } else if str_eq(c, "tr") {
        Some("tur")
    } else if str_eq(c, "ar") {
        Some("ara")
    } else if str_eq(c, "hi") {
        Some("hin")
    } else if str_eq(c, "th") {
        Some("tha")
    } else if str_eq(c, "vi") {
        Some("vie")
    } else if str_eq(c, "id") {
        Some("ind")
    } else if str_eq(c, "cs") {
        Some("ces")
    } else if str_eq(c, "el") {
        Some("ell")
    } else if str_eq(c, "he") {
        Some("heb")
    } else if str_eq(c, "hu") {
        Some("hun")
    } else if str_eq(c, "ro") {
        Some("ron")
    } else if str_eq(c, "uk") {
        Some("ukr")
    } else if str_eq(c, "fa") {
        Some("fas")
    } else if str_eq(c, "ms") {
        Some("msa")
    } else if str_eq(c, "tl") {
        Some("tgl")
    } else if str_eq(c, "ca") {
        Some("cat")
    } else if str_eq(c, "nb") {
        Some("nob")
    } else {
        None
    }
}

/// The language that an upper-case TMDB market (`iso_3166_1`) clearly implies; `und` for a
/// multilingual or unknown market.
pub open spec fn lang3_of_upper_market(market: Seq<char>) -> Seq<char> {
    if market == "US"@ || market == "GB"@ || market == "AU"@ || market == "NZ"@ || market == "IE"@ {
        "eng"@
    } else if market == "FR"@ {
        "fra"@
    } else if market == "DE"@ || market == "AT"@ {
        "deu"@
    } else if market == "ES"@ || market == "MX"@ || market == "AR"@ || market == "CO"@ || market
        == "CL"@ || market == "PE"@ || market == "VE"@ || market == "UY"@ {
        "spa"@
    } else if market == "BR"@ || market == "PT"@ {
        "por"@
    } else if market == "IT"@ {
        "ita"@
    } else if market == "JP"@ {
        "jpn"@
    } else if market == "KR"@ {
        "kor"@
    } else if market == "CN"@ || market == "TW"@ {
        "zho"@
    } else if market == "RU"@ {
        "rus"@
    } else if market == "UA"@ {
        "ukr"@
    } else if market == "PL"@ {
        "pol"@
    } else if market == "NL"@ {
        "nld"@
    } else if market == "SE"@ {
        "swe"@
    } else if market == "NO"@ {
        "nor"@
    } else if market == "DK"@ {
        "dan"@
    } else if market == "FI"@ {
        "fin"@
    } else if market == "TR"@ {
        "tur"@
    } else if market == "GR"@ {
        "ell"@
    } else if market == "HU"@ {
        "hun"@
    } else if market == "CZ"@ {
        "ces"@
    } else if market == "SK"@ {
        "slk"@
    } else if market == "RO"@ {
        "ron"@
    } else if market == "BG"@ {
        "bul"@
    } else if market == "RS"@ {
        "srp"@
    } else if market == "HR"@ {
        "hrv"@
    } else if market == "IL"@ {
        "heb"@
    } else if market == "IR"@ {
        "fas"@
    } else if market == "TH"@ {
        "tha"@
    } else if market == "VN"@ {
        "vie"@
    } else if market == "ID"@ {
        "ind"@
    } else {
        "und"@
    }
}

/// The language that a TMDB market implies, whatever its ASCII case and the whitespace around it.
pub open spec fn lang3_of_market(market: Seq<char>) -> Seq<char> {
    lang3_of_upper_market(text::ascii_uppercase(text::trim(market)))
}

/// The language a TMDB AKA market clearly implies, or `und`: map what is unambiguous, never guess.
/// `CA`, `CH`, `BE`, `IN`, `HK`, `SG` and the empty market are `und` on purpose.
pub fn market_lang3(market: &str) -> (r: &'static str)
    ensures
        r@ == lang3_of_market(market@),
{
    let upper = to_ascii_uppercase(trimmed(market));
    let m = upper.as_str();
    if str_eq(m, "US") || str_eq(m, "GB") || str_eq(m, "AU") || str_eq(m, "NZ") || str_eq(m, "IE") {
        "eng"
    } else if str_eq(m, "FR") {
        "fra"
    } else if str_eq(m, "DE") || str_eq(m, "AT") {
        "deu"
    } else if str_eq(m, "ES") || str_eq(m, "MX") || str_eq(m, "AR") || str_eq(m, "CO") || str_eq(
        m,
        "CL",
    ) || str_eq(m, "PE") || str_eq(m, "VE") || str_eq(m, "UY") {
        "spa"
    } else if str_eq(m, "BR") || str_eq(m, "PT") {
        "por"
    } else if str_eq(m, "IT") {
        "ita"
    } else if str_eq(m, "JP") {
        "jpn"
    } else if str_eq(m, "KR") {
        "kor"
    } else if str_eq(m, "CN") || str_eq(m, "TW") {
        "zho"
    } else if str_eq(m, "RU") {
        "rus"
    } else if str_eq(m, "UA") {
        "ukr"
    } else if str_eq(m, "PL") {
        "pol"
    } else if str_eq(m, "NL") {
        "nld"
    } else if str_eq(m, "SE") {
        "swe"
    } else if str_eq(m, "NO") {
        "nor"
    } else if str_eq(m, "DK") {
        "dan"
    } else if str_eq(m, "FI") {
        "fin"
    } else if str_eq(m, "TR") {
        "tur"
    } else if str_eq(m, "GR") {
        "ell"
    } else if str_eq(m, "HU") {
        "hun"
    } else if str_eq(m, "CZ") {
        "ces"
    } else if str_eq(m, "SK") {
        "slk"
    } else if str_eq(m, "RO") {
        "ron"
    } else if str_eq(m, "BG") {
        "bul"
    } else if str_eq(m, "RS") {
        "srp"
    } else if str_eq(m, "HR") {
        "hrv"
    } else if str_eq(m, "IL") {
        "heb"
    } else if str_eq(m, "IR") {
        "fas"
    } else if str_eq(m, "TH") {
        "tha"
    } else if str_eq(m, "VN") {
        "vie"
    } else if str_eq(m, "ID") {
        "ind"
    } else {
        "und"
    }
}

/// Every language code that the tables yield has three letters and holds no key separator.
pub proof fn codes_are_three_letters(code: Seq<char>, market: Seq<char>)
    ensures
        lang3_of_code(code) matches Some(lang3) ==> lang3.len() == 3 && !lang3.contains('/'),
        lang3_of_market(market).len() == 3,
        !lang3_of_market(market).contains('/'),
{
    reveal_strlit("eng");
    reveal_strlit("jpn");
    reveal_strlit("fra");
    reveal_strlit("deu");
    reveal_strlit("spa");
    reveal_strlit("ita");
    reveal_strlit("rus");
    reveal_strlit("kor");
    reveal_strlit("zho");
    reveal_strlit("por");
    reveal_strlit("nld");
    reveal_strlit("swe");
    reveal_strlit("nor");
    reveal_strlit("dan");
    reveal_strlit("fin");
    reveal_strlit("pol");
    reveal_strlit("tur");
    reveal_strlit("ara");
    reveal_strlit("hin");
    reveal_strlit("tha");
    reveal_strlit("vie");
    reveal_strlit("ind");
    reveal_strlit("ces");
    reveal_strlit("ell");
    reveal_strlit("heb");
    reveal_strlit("hun");
    reveal_strlit("ron");
    reveal_strlit("ukr");
    reveal_strlit("fas");
    reveal_strlit("msa");
    reveal_strlit("tgl");
    reveal_strlit("cat");
    reveal_strlit("nob");
    reveal_strlit("slk");
    reveal_strlit("bul");
    reveal_strlit("srp");
    reveal_strlit("hrv");
    reveal_strlit("und");
}

} // verus!
