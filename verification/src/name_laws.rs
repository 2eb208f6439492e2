//! What the language tables and the names of a work say, pair by pair and title by title.

use vstd::prelude::*;

use crate::languages;
use crate::text;
use crate::titles;
use crate::titles::TmdbAltTitles;
use crate::words;
use crate::words::WordClass;

verus! {

// -- languages ------------------------------------------------------------------------------

/// Each two-letter code names its language, whatever its ASCII case.
pub proof fn each_code_names_its_language(code: Seq<char>, c: Seq<char>)
    requires
        c == text::ascii_lowercase(code),
    ensures
        c == "en"@ ==> languages::lang3_of_code(code) == Some("eng"@),
        c == "ja"@ ==> languages::lang3_of_code(code) == Some("jpn"@),
        c == "fr"@ ==> languages::lang3_of_code(code) == Some("fra"@),
        c == "de"@ ==> languages::lang3_of_code(code) == Some("deu"@),
        c == "es"@ ==> languages::lang3_of_code(code) == Some("spa"@),
        c == "it"@ ==> languages::lang3_of_code(code) == Some("ita"@),
        c == "ru"@ ==> languages::lang3_of_code(code) == Some("rus"@),
        c == "ko"@ ==> languages::lang3_of_code(code) == Some("kor"@),
        c == "zh"@ ==> languages::lang3_of_code(code) == Some("zho"@),
        c == "pt"@ ==> languages::lang3_of_code(code) == Some("por"@),
        c == "nl"@ ==> languages::lang3_of_code(code) == Some("nld"@),
        c == "sv"@ ==> languages::lang3_of_code(code) == Some("swe"@),
        c == "no"@ ==> languages::lang3_of_code(code) == Some("nor"@),
        c == "da"@ ==> languages::lang3_of_code(code) == Some("dan"@),
        c == "fi"@ ==> languages::lang3_of_code(code) == Some("fin"@),
        c == "pl"@ ==> languages::lang3_of_code(code) == Some("pol"@),
        c == "tr"@ ==> languages::lang3_of_code(code) == Some("tur"@),
        c == "ar"@ ==> languages::lang3_of_code(code) == Some("ara"@),
        c == "hi"@ ==> languages::lang3_of_code(code) == Some("hin"@),
        c == "th"@ ==> languages::lang3_of_code(code) == Some("tha"@),
        c == "vi"@ ==> languages::lang3_of_code(code) == Some("vie"@),
        c == "id"@ ==> languages::lang3_of_code(code) == Some("ind"@),
        c == "cs"@ ==> languages::lang3_of_code(code) == Some("ces"@),
        c == "el"@ ==> languages::lang3_of_code(code) == Some("ell"@),
        c == "he"@ ==> languages::lang3_of_code(code) == Some("heb"@),
        c == "hu"@ ==> languages::lang3_of_code(code) == Some("hun"@),
        c == "ro"@ ==> languages::lang3_of_code(code) == Some("ron"@),
        c == "uk"@ ==> languages::lang3_of_code(code) == Some("ukr"@),
        c == "fa"@ ==> languages::lang3_of_code(code) == Some("fas"@),
        c == "ms"@ ==> languages::lang3_of_code(code) == Some("msa"@),
        c == "tl"@ ==> languages::lang3_of_code(code) == Some("tgl"@),
        c == "ca"@ ==> languages::lang3_of_code(code) == Some("cat"@),
        c == "nb"@ ==> languages::lang3_of_code(code) == Some("nob"@),
{
    reveal_strlit("en");
    reveal_strlit("ja");
    reveal_strlit("fr");
    reveal_strlit("de");
    reveal_strlit("es");
    reveal_strlit("it");
    reveal_strlit("ru");
    reveal_strlit("ko");
    reveal_strlit("zh");
    reveal_strlit("pt");
    reveal_strlit("nl");
    reveal_strlit("sv");
    reveal_strlit("no");
    reveal_strlit("da");
    reveal_strlit("fi");
    reveal_strlit("pl");
    reveal_strlit("tr");
    reveal_strlit("ar");
    reveal_strlit("hi");
    reveal_strlit("th");
    reveal_strlit("vi");
    reveal_strlit("id");
    reveal_strlit("cs");
    reveal_strlit("el");
    reveal_strlit("he");
    reveal_strlit("hu");
    reveal_strlit("ro");
    reveal_strlit("uk");
    reveal_strlit("fa");
    reveal_strlit("ms");
    reveal_strlit("tl");
    reveal_strlit("ca");
    reveal_strlit("nb");
    assert("en"@[0] == 'e' && "en"@[1] == 'n');
    assert("ja"@[0] == 'j' && "ja"@[1] == 'a');
    assert("fr"@[0] == 'f' && "fr"@[1] == 'r');
    assert("de"@[0] == 'd' && "de"@[1] == 'e');
    assert("es"@[0] == 'e' && "es"@[1] == 's');
    assert("it"@[0] == 'i' && "it"@[1] == 't');
    assert("ru"@[0] == 'r' && "ru"@[1] == 'u');
    assert("ko"@[0] == 'k' && "ko"@[1] == 'o');
    assert("zh"@[0] == 'z' && "zh"@[1] == 'h');
    assert("pt"@[0] == 'p' && "pt"@[1] == 't');
    assert("nl"@[0] == 'n' && "nl"@[1] == 'l');
    assert("sv"@[0] == 's' && "sv"@[1] == 'v');
    assert("no"@[0] == 'n' && "no"@[1] == 'o');
    assert("da"@[0] == 'd' && "da"@[1] == 'a');
    assert("fi"@[0] == 'f' && "fi"@[1] == 'i');
    assert("pl"@[0] == 'p' && "pl"@[1] == 'l');
    assert("tr"@[0] == 't' && "tr"@[1] == 'r');
    assert("ar"@[0] == 'a' && "ar"@[1] == 'r');
    assert("hi"@[0] == 'h' && "hi"@[1] == 'i');
    assert("th"@[0] == 't' && "th"@[1] == 'h');
    assert("vi"@[0] == 'v' && "vi"@[1] == 'i');
    assert("id"@[0] == 'i' && "id"@[1] == 'd');
    assert("cs"@[0] == 'c' && "cs"@[1] == 's');
    assert("el"@[0] == 'e' && "el"@[1] == 'l');
    assert("he"@[0] == 'h' && "he"@[1] == 'e');
    assert("hu"@[0] == 'h' && "hu"@[1] == 'u');
    assert("ro"@[0] == 'r' && "ro"@[1] == 'o');
    assert("uk"@[0] == 'u' && "uk"@[1] == 'k');
    assert("fa"@[0] == 'f' && "fa"@[1] == 'a');
    assert("ms"@[0] == 'm' && "ms"@[1] == 's');
    assert("tl"@[0] == 't' && "tl"@[1] == 'l');
    assert("ca"@[0] == 'c' && "ca"@[1] == 'a');
    assert("nb"@[0] == 'n' && "nb"@[1] == 'b');
}

/// No other code names a language.
pub proof fn other_codes_name_no_language(code: Seq<char>, c: Seq<char>)
    requires
        c == text::ascii_lowercase(code),
        c != "en"@ && c != "ja"@ && c != "fr"@ && c != "de"@ && c != "es"@,
        c != "it"@ && c != "ru"@ && c != "ko"@ && c != "zh"@ && c != "pt"@,
        c != "nl"@ && c != "sv"@ && c != "no"@ && c != "da"@ && c != "fi"@,
        c != "pl"@ && c != "tr"@ && c != "ar"@ && c != "hi"@ && c != "th"@,
        c != "vi"@ && c != "id"@ && c != "cs"@ && c != "el"@ && c != "he"@,
        c != "hu"@ && c != "ro"@ && c != "uk"@ && c != "fa"@ && c != "ms"@,
        c != "tl"@ && c != "ca"@ && c != "nb"@,
    ensures
        languages::lang3_of_code(code) is None,
{
}

/// Two codes that name one language are one code, up to ASCII case: distinct codes name distinct
/// languages, so that no two languages are filed as one.
pub proof fn distinct_codes_name_distinct_languages(a: Seq<char>, b: Seq<char>)
    requires
        languages::lang3_of_code(a) is Some,
        languages::lang3_of_code(a) == languages::lang3_of_code(b),
    ensures
        text::ascii_lowercase(a) == text::ascii_lowercase(b),
{
    reveal_strlit("eng");
    reveal_strlit("jpn");
    reveal_strlit("fra");
    reveal_strlit("deu");
    reveal_strlit("spa");
    reveal_strlit("ita");
    reveal_strlit("rus");
    reveal_strlit("kor");
    reveal_strlit("zho");
    reveal_strlit("por");
    reveal_strlit("nld");
    reveal_strlit("swe");
    reveal_strlit("nor");
    reveal_strlit("dan");
    reveal_strlit("fin");
    reveal_strlit("pol");
    reveal_strlit("tur");
    reveal_strlit("ara");
    reveal_strlit("hin");
    reveal_strlit("tha");
    reveal_strlit("vie");
    reveal_strlit("ind");
    reveal_strlit("ces");
    reveal_strlit("ell");
    reveal_strlit("heb");
    reveal_strlit("hun");
    reveal_strlit("ron");
    reveal_strlit("ukr");
    reveal_strlit("fas");
    reveal_strlit("msa");
    reveal_strlit("tgl");
    reveal_strlit("cat");
    reveal_strlit("nob");
    assert("eng"@[0] == 'e' && "eng"@[1] == 'n' && "eng"@[2] == 'g');
    assert("jpn"@[0] == 'j' && "jpn"@[1] == 'p' && "jpn"@[2] == 'n');
    assert("fra"@[0] == 'f' && "fra"@[1] == 'r' && "fra"@[2] == 'a');
    assert("deu"@[0] == 'd' && "deu"@[1] == 'e' && "deu"@[2] == 'u');
    assert("spa"@[0] == 's' && "spa"@[1] == 'p' && "spa"@[2] == 'a');
    assert("ita"@[0] == 'i' && "ita"@[1] == 't' && "ita"@[2] == 'a');
    assert("rus"@[0] == 'r' && "rus"@[1] == 'u' && "rus"@[2] == 's');
    assert("kor"@[0] == 'k' && "kor"@[1] == 'o' && "kor"@[2] == 'r');
    assert("zho"@[0] == 'z' && "zho"@[1] == 'h' && "zho"@[2] == 'o');
    assert("por"@[0] == 'p' && "por"@[1] == 'o' && "por"@[2] == 'r');
    assert("nld"@[0] == 'n' && "nld"@[1] == 'l' && "nld"@[2] == 'd');
    assert("swe"@[0] == 's' && "swe"@[1] == 'w' && "swe"@[2] == 'e');
    assert("nor"@[0] == 'n' && "nor"@[1] == 'o' && "nor"@[2] == 'r');
    assert("dan"@[0] == 'd' && "dan"@[1] == 'a' && "dan"@[2] == 'n');
    assert("fin"@[0] == 'f' && "fin"@[1] == 'i' && "fin"@[2] == 'n');
    assert("pol"@[0] == 'p' && "pol"@[1] == 'o' && "pol"@[2] == 'l');
    assert("tur"@[0] == 't' && "tur"@[1] == 'u' && "tur"@[2] == 'r');
    assert("ara"@[0] == 'a' && "ara"@[1] == 'r' && "ara"@[2] == 'a');
    assert("hin"@[0] == 'h' && "hin"@[1] == 'i' && "hin"@[2] == 'n');
    assert("tha"@[0] == 't' && "tha"@[1] == 'h' && "tha"@[2] == 'a');
    assert("vie"@[0] == 'v' && "vie"@[1] == 'i' && "vie"@[2] == 'e');
    assert("ind"@[0] == 'i' && "ind"@[1] == 'n' && "ind"@[2] == 'd');
    assert("ces"@[0] == 'c' && "ces"@[1] == 'e' && "ces"@[2] == 's');
    assert("ell"@[0] == 'e' && "ell"@[1] == 'l' && "ell"@[2] == 'l');
    assert("heb"@[0] == 'h' && "heb"@[1] == 'e' && "heb"@[2] == 'b');
    assert("hun"@[0] == 'h' && "hun"@[1] == 'u' && "hun"@[2] == 'n');
    assert("ron"@[0] == 'r' && "ron"@[1] == 'o' && "ron"@[2] == 'n');
    assert("ukr"@[0] == 'u' && "ukr"@[1] == 'k' && "ukr"@[2] == 'r');
    assert("fas"@[0] == 'f' && "fas"@[1] == 'a' && "fas"@[2] == 's');
    assert("msa"@[0] == 'm' && "msa"@[1] == 's' && "msa"@[2] == 'a');
    assert("tgl"@[0] == 't' && "tgl"@[1] == 'g' && "tgl"@[2] == 'l');
    assert("cat"@[0] == 'c' && "cat"@[1] == 'a' && "cat"@[2] == 't');
    assert("nob"@[0] == 'n' && "nob"@[1] == 'o' && "nob"@[2] == 'b');
}

/// Each market names the language it clearly implies, whatever its ASCII case and the whitespace
/// around it; a multilingual market names none.
pub proof fn each_market_names_its_language(market: Seq<char>, m: Seq<char>)
    requires
        m == text::ascii_uppercase(text::trim(market)),
    ensures
        m == "US"@ || m == "GB"@ || m == "AU"@ || m == "NZ"@ || m == "IE"@
            ==> languages::lang3_of_market(market) == "eng"@,
        m == "FR"@ ==> languages::lang3_of_market(market) == "fra"@,
        m == "DE"@ || m == "AT"@ ==> languages::lang3_of_market(market) == "deu"@,
        m == "ES"@ || m == "MX"@ || m == "AR"@ || m == "CO"@ || m == "CL"@
            || m == "PE"@ || m == "VE"@ || m == "UY"@
            ==> languages::lang3_of_market(market) == "spa"@,
        m == "BR"@ || m == "PT"@ ==> languages::lang3_of_market(market) == "por"@,
        m == "IT"@ ==> languages::lang3_of_market(market) == "ita"@,
        m == "JP"@ ==> languages::lang3_of_market(market) == "jpn"@,
        m == "KR"@ ==> languages::lang3_of_market(market) == "kor"@,
        m == "CN"@ || m == "TW"@ ==> languages::lang3_of_market(market) == "zho"@,
        m == "RU"@ ==> languages::lang3_of_market(market) == "rus"@,
        m == "UA"@ ==> languages::lang3_of_market(market) == "ukr"@,
        m == "PL"@ ==> languages::lang3_of_market(market) == "pol"@,
        m == "NL"@ ==> languages::lang3_of_market(market) == "nld"@,
        m == "SE"@ ==> languages::lang3_of_market(market) == "swe"@,
        m == "NO"@ ==> languages::lang3_of_market(market) == "nor"@,
        m == "DK"@ ==> languages::lang3_of_market(market) == "dan"@,
        m == "FI"@ ==> languages::lang3_of_market(market) == "fin"@,
        m == "TR"@ ==> languages::lang3_of_market(market) == "tur"@,
        m == "GR"@ ==> languages::lang3_of_market(market) == "ell"@,
        m == "HU"@ ==> languages::lang3_of_market(market) == "hun"@,
        m == "CZ"@ ==> languages::lang3_of_market(market) == "ces"@,
        m == "SK"@ ==> languages::lang3_of_market(market) == "slk"@,
        m == "RO"@ ==> languages::lang3_of_market(market) == "ron"@,
        m == "BG"@ ==> languages::lang3_of_market(market) == "bul"@,
        m == "RS"@ ==> languages::lang3_of_market(market) == "srp"@,
        m == "HR"@ ==> languages::lang3_of_market(market) == "hrv"@,
        m == "IL"@ ==> languages::lang3_of_market(market) == "heb"@,
        m == "IR"@ ==> languages::lang3_of_market(market) == "fas"@,
        m == "TH"@ ==> languages::lang3_of_market(market) == "tha"@,
        m == "VN"@ ==> languages::lang3_of_market(market) == "vie"@,
        m == "ID"@ ==> languages::lang3_of_market(market) == "ind"@,
        m == "CA"@ || m == "CH"@ || m == "BE"@ || m == "IN"@ || m == "HK"@
            || m == "SG"@ ==> languages::lang3_of_market(market) == "und"@,
        m.len() == 0 ==> languages::lang3_of_market(market) == "und"@,
{
    reveal_strlit("US");
    reveal_strlit("GB");
    reveal_strlit("AU");
    reveal_strlit("NZ");
    reveal_strlit("IE");
    reveal_strlit("FR");
    reveal_strlit("DE");
    reveal_strlit("AT");
    reveal_strlit("ES");
    reveal_strlit("MX");
    reveal_strlit("AR");
    reveal_strlit("CO");
    reveal_strlit("CL");
    reveal_strlit("PE");
    reveal_strlit("VE");
    reveal_strlit("UY");
    reveal_strlit("BR");
    reveal_strlit("PT");
    reveal_strlit("IT");
    reveal_strlit("JP");
    reveal_strlit("KR");
    reveal_strlit("CN");
    reveal_strlit("TW");
    reveal_strlit("RU");
    reveal_strlit("UA");
    reveal_strlit("PL");
    reveal_strlit("NL");
    reveal_strlit("SE");
    reveal_strlit("NO");
    reveal_strlit("DK");
    reveal_strlit("FI");
    reveal_strlit("TR");
    reveal_strlit("GR");
    reveal_strlit("HU");
    reveal_strlit("CZ");
    reveal_strlit("SK");
    reveal_strlit("RO");
    reveal_strlit("BG");
    reveal_strlit("RS");
    reveal_strlit("HR");
    reveal_strlit("IL");
    reveal_strlit("IR");
    reveal_strlit("TH");
    reveal_strlit("VN");
    reveal_strlit("ID");
    reveal_strlit("CA");
    reveal_strlit("CH");
    reveal_strlit("BE");
    reveal_strlit("IN");
    reveal_strlit("HK");
    reveal_strlit("SG");
    assert("US"@[0] == 'U' && "US"@[1] == 'S');
    assert("GB"@[0] == 'G' && "GB"@[1] == 'B');
    assert("AU"@[0] == 'A' && "AU"@[1] == 'U');
    assert("NZ"@[0] == 'N' && "NZ"@[1] == 'Z');
    assert("IE"@[0] == 'I' && "IE"@[1] == 'E');
    assert("FR"@[0] == 'F' && "FR"@[1] == 'R');
    assert("DE"@[0] == 'D' && "DE"@[1] == 'E');
    assert("AT"@[0] == 'A' && "AT"@[1] == 'T');
    assert("ES"@[0] == 'E' && "ES"@[1] == 'S');
    assert("MX"@[0] == 'M' && "MX"@[1] == 'X');
    assert("AR"@[0] == 'A' && "AR"@[1] == 'R');
    assert("CO"@[0] == 'C' && "CO"@[1] == 'O');
    assert("CL"@[0] == 'C' && "CL"@[1] == 'L');
    assert("PE"@[0] == 'P' && "PE"@[1] == 'E');
    assert("VE"@[0] == 'V' && "VE"@[1] == 'E');
    assert("UY"@[0] == 'U' && "UY"@[1] == 'Y');
    assert("BR"@[0] == 'B' && "BR"@[1] == 'R');
    assert("PT"@[0] == 'P' && "PT"@[1] == 'T');
    assert("IT"@[0] == 'I' && "IT"@[1] == 'T');
    assert("JP"@[0] == 'J' && "JP"@[1] == 'P');
    assert("KR"@[0] == 'K' && "KR"@[1] == 'R');
    assert("CN"@[0] == 'C' && "CN"@[1] == 'N');
    assert("TW"@[0] == 'T' && "TW"@[1] == 'W');
    assert("RU"@[0] == 'R' && "RU"@[1] == 'U');
    assert("UA"@[0] == 'U' && "UA"@[1] == 'A');
    assert("PL"@[0] == 'P' && "PL"@[1] == 'L');
    assert("NL"@[0] == 'N' && "NL"@[1] == 'L');
    assert("SE"@[0] == 'S' && "SE"@[1] == 'E');
    assert("NO"@[0] == 'N' && "NO"@[1] == 'O');
    assert("DK"@[0] == 'D' && "DK"@[1] == 'K');
    assert("FI"@[0] == 'F' && "FI"@[1] == 'I');
    assert("TR"@[0] == 'T' && "TR"@[1] == 'R');
    assert("GR"@[0] == 'G' && "GR"@[1] == 'R');
    assert("HU"@[0] == 'H' && "HU"@[1] == 'U');
    assert("CZ"@[0] == 'C' && "CZ"@[1] == 'Z');
    assert("SK"@[0] == 'S' && "SK"@[1] == 'K');
    assert("RO"@[0] == 'R' && "RO"@[1] == 'O');
    assert("BG"@[0] == 'B' && "BG"@[1] == 'G');
    assert("RS"@[0] == 'R' && "RS"@[1] == 'S');
    assert("HR"@[0] == 'H' && "HR"@[1] == 'R');
    assert("IL"@[0] == 'I' && "IL"@[1] == 'L');
    assert("IR"@[0] == 'I' && "IR"@[1] == 'R');
    assert("TH"@[0] == 'T' && "TH"@[1] == 'H');
    assert("VN"@[0] == 'V' && "VN"@[1] == 'N');
    assert("ID"@[0] == 'I' && "ID"@[1] == 'D');
    assert("CA"@[0] == 'C' && "CA"@[1] == 'A');
    assert("CH"@[0] == 'C' && "CH"@[1] == 'H');
    assert("BE"@[0] == 'B' && "BE"@[1] == 'E');
    assert("IN"@[0] == 'I' && "IN"@[1] == 'N');
    assert("HK"@[0] == 'H' && "HK"@[1] == 'K');
    assert("SG"@[0] == 'S' && "SG"@[1] == 'G');
}

/// Any other market names no language.
pub proof fn other_markets_name_no_language(market: Seq<char>, m: Seq<char>)
    requires
        m == text::ascii_uppercase(text::trim(market)),
        m != "US"@ && m != "GB"@ && m != "AU"@ && m != "NZ"@ && m != "IE"@,
        m != "FR"@,
        m != "DE"@ && m != "AT"@,
        m != "ES"@ && m != "MX"@ && m != "AR"@ && m != "CO"@ && m != "CL"@,
        m != "PE"@ && m != "VE"@ && m != "UY"@,
        m != "BR"@ && m != "PT"@,
        m != "IT"@,
        m != "JP"@,
        m != "KR"@,
        m != "CN"@ && m != "TW"@,
        m != "RU"@,
        m != "UA"@,
        m != "PL"@,
        m != "NL"@,
        m != "SE"@,
        m != "NO"@,
        m != "DK"@,
        m != "FI"@,
        m != "TR"@,
        m != "GR"@,
        m != "HU"@,
        m != "CZ"@,
        m != "SK"@,
        m != "RO"@,
        m != "BG"@,
        m != "RS"@,
        m != "HR"@,
        m != "IL"@,
        m != "IR"@,
        m != "TH"@,
        m != "VN"@,
        m != "ID"@,
    ensures
        languages::lang3_of_market(market) == "und"@,
{
}

// -- the normal form of a name --------------------------------------------------------------

/// Joining lists of texts one after the other joins what each list joins to, with the separator
/// between them; a text alone is joined to itself, and nothing to nothing.
pub proof fn joining_lists(a: Seq<Seq<char>>, b: Seq<Seq<char>>, text: Seq<char>, sep: Seq<char>)
    ensures
        words::join(seq![text], sep) == text,
        words::join(Seq::empty(), sep).len() == 0,
        a.len() > 0 && b.len() > 0 ==> words::join(a + b, sep) == words::join(a, sep) + sep
            + words::join(b, sep),
        a.len() == 0 ==> words::join(a + b, sep) == words::join(b, sep),
        b.len() == 0 ==> words::join(a + b, sep) == words::join(a, sep),
    decreases b.len(),
{
    if b.len() == 0 {
        assert(a + b =~= a);
    } else if a.len() == 0 {
        assert(a + b =~= b);
    } else {
        let init = b.drop_last();
        assert((a + b).drop_last() =~= a + init);
        assert((a + b).last() == b.last());
        joining_lists(a, init, text, sep);
        if b.len() == 1 {
            assert(a + init =~= a);
            assert(words::join(b, sep) == b[0]);
        } else {
            assert(words::join(a + b, sep) =~= words::join(a, sep) + sep + words::join(b, sep));
        }
    }
}

proof fn lemma_joined_words_are_visible(ws: Seq<Seq<char>>)
    requires
        forall|i: int| 0 <= i < ws.len() ==> (#[trigger] ws[i]).len() > 0,
    ensures
        words::join(ws, seq![' ']).len() == 0 <==> ws.len() == 0,
    decreases ws.len(),
{
    if ws.len() > 1 {
        lemma_joined_words_are_visible(ws.drop_last());
    } else if ws.len() == 1 {
        assert(ws[0].len() > 0);
    }
}

/// A name's normal form is empty exactly when all of the name is whitespace.
pub proof fn a_blank_name_has_no_normal_form(name: Seq<char>)
    ensures
        titles::normal_name(name).len() == 0 <==> text::trim(name).len() == 0,
{
    let class = WordClass::Visible;
    let ws = words::words(name, class);
    words::lemma_words_are_words(name, class);
    assert forall|i: int| 0 <= i < ws.len() implies (#[trigger] ws[i]).len() > 0 by {
        assert(words::is_word(ws[i], class));
    }
    lemma_joined_words_are_visible(ws);
    text::blank_texts_trim_to_nothing(name);
    if ws.len() == 0 {
        assert forall|i: int| 0 <= i < name.len() implies text::is_whitespace(
            #[trigger] name[i],
        ) by {
            assert(!class.has(name[i]));
        }
    } else {
        let i = choose|i: int| 0 <= i < name.len() && class.has(#[trigger] name[i]);
        assert(!text::is_whitespace(name[i]));
    }
}

/// What the normal form of a name is: a text without whitespace is left as it is, and whitespace
/// between two texts becomes one space, or nothing where one of the two is blank.
pub proof fn whitespace_becomes_one_space(a: Seq<char>, c: char, b: Seq<char>)
    requires
        text::is_whitespace(c),
    ensures
        (forall|i: int| 0 <= i < a.len() ==> !text::is_whitespace(#[trigger] a[i]))
            ==> titles::normal_name(a) == a,
        titles::normal_name(a).len() > 0 && titles::normal_name(b).len() > 0
            ==> titles::normal_name(a + seq![c] + b) == titles::normal_name(a) + seq![' ']
            + titles::normal_name(b),
        titles::normal_name(a).len() == 0 ==> titles::normal_name(a + seq![c] + b)
            == titles::normal_name(b),
        titles::normal_name(b).len() == 0 ==> titles::normal_name(a + seq![c] + b)
            == titles::normal_name(a),
{
    let class = WordClass::Visible;
    let wa = words::words(a, class);
    let wb = words::words(b, class);
    words::lemma_words_are_words(a, class);
    words::lemma_words_are_words(b, class);
    words::words_of_two_texts(a, c, b, class);
    joining_lists(wa, wb, a, seq![' ']);
    assert forall|i: int| 0 <= i < wa.len() implies (#[trigger] wa[i]).len() > 0 by {
        assert(words::is_word(wa[i], class));
    }
    assert forall|i: int| 0 <= i < wb.len() implies (#[trigger] wb[i]).len() > 0 by {
        assert(words::is_word(wb[i], class));
    }
    lemma_joined_words_are_visible(wa);
    lemma_joined_words_are_visible(wb);
    if forall|i: int| 0 <= i < a.len() ==> !text::is_whitespace(#[trigger] a[i]) {
        if a.len() > 0 {
            assert forall|i: int| 0 <= i < a.len() implies class.has(#[trigger] a[i]) by {
                assert(!text::is_whitespace(a[i]));
            }
            assert(words::is_word(a, class));
        }
        words::words_of_one_word(a, class);
        assert(titles::normal_name(a) =~= a);
    }
}

/// A name is filed at `titles/`, its language, `/`, and its normal form character by character, a
/// `/` in it written as U+2215; a blank name is not filed.
pub proof fn a_name_is_filed_letter_by_letter(lang3: Seq<char>, name: Seq<char>)
    ensures
        titles::title_key(lang3, name) is Some <==> titles::normal_name(name).len() > 0,
        titles::title_key(lang3, name) matches Some(key) ==> {
            let start = "titles/"@ + lang3 + "/"@;
            let normal = titles::normal_name(name);
            &&& key.len() == start.len() + normal.len()
            &&& start.is_prefix_of(key)
            &&& forall|i: int|
                0 <= i < normal.len() ==> #[trigger] key[start.len() + i] == if normal[i] == '/' {
                    '\u{2215}'
                } else {
                    normal[i]
                }
        },
{
    titles::title_key_is_a_leaf(lang3, name);
}

// -- the names of a work --------------------------------------------------------------------

proof fn lemma_akas_come_last(
    names: Seq<(Seq<char>, Seq<char>)>,
    akas: Seq<(Seq<char>, Seq<char>)>,
)
    ensures
        names.len() <= titles::with_akas(names, akas).len(),
        forall|i: int|
            0 <= i < names.len() ==> #[trigger] titles::with_akas(names, akas)[i] == names[i],
        forall|i: int|
            names.len() <= i < titles::with_akas(names, akas).len() ==> exists|k: int|
                0 <= k < akas.len() && #[trigger] titles::with_akas(names, akas)[i] == (
                    languages::lang3_of_market((#[trigger] akas[k]).1),
                    titles::normal_name(akas[k].0),
                ),
        forall|k: int|
            0 <= k < akas.len() && titles::normal_name((#[trigger] akas[k]).0).len() > 0
                ==> titles::with_akas(names, akas).contains(
                (languages::lang3_of_market(akas[k].1), titles::normal_name(akas[k].0)),
            ),
    decreases akas.len(),
{
    if akas.len() > 0 {
        let init = akas.drop_last();
        lemma_akas_come_last(names, init);
        let before = titles::with_akas(names, init);
        let now = titles::with_akas(names, akas);
        let (title, market) = akas.last();
        let entry = (languages::lang3_of_market(market), titles::normal_name(title));
        assert forall|i: int| 0 <= i < names.len() implies #[trigger] now[i] == names[i] by {
            assert(before[i] == names[i]);
        }
        assert forall|i: int| names.len() <= i < now.len() implies exists|k: int|
            0 <= k < akas.len() && #[trigger] now[i] == (
                languages::lang3_of_market((#[trigger] akas[k]).1),
                titles::normal_name(akas[k].0),
            ) by {
            if i < before.len() {
                assert(now[i] == before[i]);
                let k = choose|k: int|
                    0 <= k < init.len() && before[i] == (
                        languages::lang3_of_market((#[trigger] init[k]).1),
                        titles::normal_name(init[k].0),
                    );
                assert(akas[k] == init[k]);
            } else {
                assert(akas[akas.len() - 1] == (title, market));
            }
        }
        assert forall|k: int|
            0 <= k < akas.len() && titles::normal_name((#[trigger] akas[k]).0).len()
                > 0 implies now.contains(
            (languages::lang3_of_market(akas[k].1), titles::normal_name(akas[k].0)),
        ) by {
            let e = (languages::lang3_of_market(akas[k].1), titles::normal_name(akas[k].0));
            if k < init.len() {
                assert(init[k] == akas[k]);
                let i = choose|i: int| 0 <= i < before.len() && before[i] == e;
                assert(now[i] == e);
            } else if !before.contains(entry) {
                assert(now[before.len() as int] == e);
            }
        }
    }
}

/// The original title of a work comes first among its names, in its normal form, filed under the
/// language that its two-letter code names, whatever whitespace surrounds the code; under `und`
/// where there is no code or the code names no language.
pub proof fn an_original_title_is_filed_under_its_language(
    title: Seq<char>,
    original: Seq<char>,
    code: Option<Seq<char>>,
    akas: Seq<(Seq<char>, Seq<char>)>,
)
    requires
        titles::normal_name(original).len() > 0,
    ensures
        ({
            let names = titles::work_names(title, Some(original), code, akas);
            &&& names.len() > 0
            &&& names[0].1 == titles::normal_name(original)
            &&& code is None ==> names[0].0 == "und"@
            &&& code matches Some(c) ==> match languages::lang3_of_code(text::trim(c)) {
                Some(lang3) => names[0].0 == lang3,
                None => names[0].0 == "und"@,
            }
        }),
{
    let names = titles::work_names(title, Some(original), code, akas);
    let first = titles::with_name(Seq::empty(), titles::original_lang3_or_und(code), original);
    let second = if titles::normal_name(title) == titles::untitled() || titles::normal_name(
        original,
    ) == titles::normal_name(title) {
        first
    } else {
        titles::with_name(first, languages::METADATA_LANG3@, title)
    };
    lemma_akas_come_last(second, akas);
    assert(names[0] == second[0]);
    assert(second[0] == first[0]);
}

/// The title of a work is filed as English, unless it repeats the original or is TMDB's placeholder
/// for a missing one: then only the original and the alternative titles name the work.
pub proof fn a_title_is_filed_as_english(
    title: Seq<char>,
    original: Option<Seq<char>>,
    code: Option<Seq<char>>,
    akas: Seq<(Seq<char>, Seq<char>)>,
)
    ensures
        ({
            let names = titles::work_names(title, original, code, akas);
            let normal = titles::normal_name(title);
            let repeats = original matches Some(o) && titles::normal_name(o) == normal;
            &&& normal.len() > 0 && normal != "(untitled)"@ && !repeats ==> names.contains(
                ("eng"@, normal),
            )
            &&& akas.len() == 0 && (normal == "(untitled)"@ || repeats) ==> names.len() <= 1
            &&& akas.len() == 0 && original is None && normal == "(untitled)"@ ==> names.len() == 0
        }),
{
    let names = titles::work_names(title, original, code, akas);
    let normal = titles::normal_name(title);
    let first = match original {
        Some(o) => titles::with_name(Seq::empty(), titles::original_lang3_or_und(code), o),
        None => Seq::empty(),
    };
    let repeats = original is Some && titles::normal_name(original->0) == normal;
    let second = if normal == titles::untitled() || repeats {
        first
    } else {
        titles::with_name(first, languages::METADATA_LANG3@, title)
    };
    lemma_akas_come_last(second, akas);
    if normal.len() > 0 && normal != "(untitled)"@ && !repeats {
        let entry = ("eng"@, normal);
        if first.contains(entry) {
            let k = choose|k: int| 0 <= k < first.len() && first[k] == entry;
            assert(second[k] == entry);
            assert(names[k] == entry);
        } else {
            assert(second[first.len() as int] == entry);
            assert(names[first.len() as int] == entry);
        }
    }
}

/// Each alternative title names the work in the language that its market implies.
pub proof fn an_alternative_title_is_filed_by_its_market(
    title: Seq<char>,
    original: Option<Seq<char>>,
    code: Option<Seq<char>>,
    akas: Seq<(Seq<char>, Seq<char>)>,
    k: int,
)
    requires
        0 <= k < akas.len(),
        titles::normal_name(akas[k].0).len() > 0,
    ensures
        titles::work_names(title, original, code, akas).contains(
            (languages::lang3_of_market(akas[k].1), titles::normal_name(akas[k].0)),
        ),
{
    let first = match original {
        Some(o) => titles::with_name(Seq::empty(), titles::original_lang3_or_und(code), o),
        None => Seq::empty(),
    };
    let normal = titles::normal_name(title);
    let repeats = original is Some && titles::normal_name(original->0) == normal;
    let second = if normal == titles::untitled() || repeats {
        first
    } else {
        titles::with_name(first, languages::METADATA_LANG3@, title)
    };
    lemma_akas_come_last(second, akas);
}

/// Nothing else names a work: each of its names is the original, the title as English, or an
/// alternative title in the language of its market.
pub proof fn a_work_has_no_other_name(
    title: Seq<char>,
    original: Option<Seq<char>>,
    code: Option<Seq<char>>,
    akas: Seq<(Seq<char>, Seq<char>)>,
    i: int,
)
    requires
        0 <= i < titles::work_names(title, original, code, akas).len(),
    ensures
        ({
            let name = titles::work_names(title, original, code, akas)[i];
            ||| original matches Some(o) && name.1 == titles::normal_name(o) && i == 0
            ||| name == ("eng"@, titles::normal_name(title)) && i <= 1
            ||| exists|k: int|
                0 <= k < akas.len() && name == (
                    languages::lang3_of_market((#[trigger] akas[k]).1),
                    titles::normal_name(akas[k].0),
                )
        }),
{
    let first = match original {
        Some(o) => titles::with_name(Seq::empty(), titles::original_lang3_or_und(code), o),
        None => Seq::empty(),
    };
    let normal = titles::normal_name(title);
    let repeats = original is Some && titles::normal_name(original->0) == normal;
    let second = if normal == titles::untitled() || repeats {
        first
    } else {
        titles::with_name(first, languages::METADATA_LANG3@, title)
    };
    lemma_akas_come_last(second, akas);
    let names = titles::work_names(title, original, code, akas);
    if i < second.len() {
        assert(names[i] == second[i]);
        if i < first.len() {
            assert(second[i] == first[i]);
        }
    } else {
        assert(names[i] == titles::with_akas(second, akas)[i]);
    }
}

// -- alternative titles ---------------------------------------------------------------------

/// Are `from` the places of `listed` that the entries of `kept` were taken from, in order, with
/// both halves of an entry trimmed?
pub open spec fn are_places_of(
    from: Seq<int>,
    listed: Seq<(Seq<char>, Seq<char>)>,
    kept: Seq<(Seq<char>, Seq<char>)>,
) -> bool {
    &&& from.len() == kept.len()
    &&& forall|i: int|
        0 <= i < kept.len() ==> 0 <= #[trigger] from[i] < listed.len() && kept[i] == (
            text::trim(listed[from[i]].0),
            text::trim(listed[from[i]].1),
        ) && kept[i].0.len() > 0
}

/// Is this the market of the United States or of the United Kingdom?
pub open spec fn is_english(market: Seq<char>) -> bool {
    market == "US"@ || market == "GB"@
}

proof fn lemma_kept_places(listed: Seq<(Seq<char>, Seq<char>)>, english: bool) -> (from: Seq<int>)
    ensures
        are_places_of(from, listed, titles::kept_akas(listed, english)),
        forall|i: int, j: int| 0 <= i < j < from.len() ==> #[trigger] from[i] < #[trigger] from[j],
        forall|i: int| 0 <= i < from.len() ==> is_english(listed[#[trigger] from[i]].1) == english,
        forall|p: int|
            0 <= p < listed.len() && text::trim((#[trigger] listed[p]).0).len() > 0 && is_english(
                listed[p].1,
            ) == english ==> from.contains(p),
    decreases listed.len(),
{
    if listed.len() == 0 {
        Seq::empty()
    } else {
        let init = listed.drop_last();
        let old_from = lemma_kept_places(init, english);
        let last = listed.len() - 1;
        let (title, market) = listed.last();
        let keeps = is_english(market) == english && text::trim(title).len() > 0;
        let from = if keeps {
            old_from.push(last)
        } else {
            old_from
        };
        let before = titles::kept_akas(init, english);
        let kept = titles::kept_akas(listed, english);
        assert forall|i: int| 0 <= i < kept.len() implies 0 <= #[trigger] from[i] < listed.len()
            && kept[i] == (text::trim(listed[from[i]].0), text::trim(listed[from[i]].1))
            && kept[i].0.len() > 0 by {
            if i < before.len() {
                assert(from[i] == old_from[i]);
                assert(kept[i] == before[i]);
                assert(init[old_from[i]] == listed[from[i]]);
            }
        }
        assert forall|i: int, j: int| 0 <= i < j < from.len() implies #[trigger] from[i]
            < #[trigger] from[j] by {
            assert(from[i] == old_from[i]);
            if j < old_from.len() {
                assert(from[j] == old_from[j]);
            }
        }
        assert forall|i: int| 0 <= i < from.len() implies is_english(listed[#[trigger] from[i]].1)
            == english by {
            if i < old_from.len() {
                assert(from[i] == old_from[i]);
                assert(init[old_from[i]] == listed[from[i]]);
            }
        }
        assert forall|p: int|
            0 <= p < listed.len() && text::trim((#[trigger] listed[p]).0).len() > 0 && is_english(
                listed[p].1,
            ) == english implies from.contains(p) by {
            if p < last {
                assert(init[p] == listed[p]);
                let i = choose|i: int| 0 <= i < old_from.len() && old_from[i] == p;
                assert(from[i] == p);
            } else {
                assert(from[old_from.len() as int] == p);
            }
        }
        from
    }
}

/// Alternative titles are listed English markets first: each comes trimmed from a place of its own
/// in TMDB's two lists, the show's before the film's; every title that is not blank is listed; one
/// of the United States or the United Kingdom stands before any other; and titles on one side of
/// that line keep TMDB's order.
pub proof fn alternative_titles_are_listed_english_first(a: TmdbAltTitles) -> (from: Seq<int>)
    ensures
        ({
            let listed = titles::akas_of(a.results@) + titles::akas_of(a.titles@);
            &&& are_places_of(from, listed, a.ordered())
            &&& forall|p: int|
                0 <= p < listed.len() && text::trim((#[trigger] listed[p]).0).len() > 0
                    ==> from.contains(p)
            &&& forall|i: int, j: int|
                0 <= i < j < from.len() ==> {
                    let first = is_english(listed[#[trigger] from[i]].1);
                    let second = is_english(listed[#[trigger] from[j]].1);
                    &&& second ==> first
                    &&& first == second ==> from[i] < from[j]
                }
        }),
{
    let listed = titles::akas_of(a.results@) + titles::akas_of(a.titles@);
    assert(listed == a.listed());
    let one = lemma_kept_places(listed, true);
    let two = lemma_kept_places(listed, false);
    let from = one + two;
    let kept = a.ordered();
    assert forall|i: int| 0 <= i < kept.len() implies 0 <= #[trigger] from[i] < listed.len()
        && kept[i] == (text::trim(listed[from[i]].0), text::trim(listed[from[i]].1))
        && kept[i].0.len() > 0 by {
        if i < one.len() {
            assert(from[i] == one[i]);
            assert(kept[i] == titles::kept_akas(listed, true)[i]);
        } else {
            assert(from[i] == two[i - one.len()]);
            assert(kept[i] == titles::kept_akas(listed, false)[i - one.len()]);
        }
    }
    assert forall|p: int|
        0 <= p < listed.len() && text::trim((#[trigger] listed[p]).0).len()
            > 0 implies from.contains(p) by {
        if is_english(listed[p].1) {
            let i = choose|i: int| 0 <= i < one.len() && one[i] == p;
            assert(from[i] == p);
        } else {
            let i = choose|i: int| 0 <= i < two.len() && two[i] == p;
            assert(from[one.len() + i] == p);
        }
    }
    assert forall|i: int, j: int| 0 <= i < j < from.len() implies {
        let first = is_english(listed[#[trigger] from[i]].1);
        let second = is_english(listed[#[trigger] from[j]].1);
        &&& second ==> first
        &&& first == second ==> from[i] < from[j]
    } by {
        if i < one.len() {
            assert(from[i] == one[i]);
        } else {
            assert(from[i] == two[i - one.len()]);
        }
        if j < one.len() {
            assert(from[j] == one[j]);
        } else {
            assert(from[j] == two[j - one.len()]);
        }
    }
    from
}

/// A list of alternative titles counts as decoded with its markets when it is empty, or one of its
/// entries has a market.
pub proof fn a_list_with_a_market_was_decoded_with_markets(a: TmdbAltTitles)
    ensures
        a.results@.len() == 0 && a.titles@.len() == 0 ==> a.decoded_with_markets(),
        forall|i: int|
            0 <= i < a.results@.len() && (#[trigger] a.results@[i]).iso_3166_1@.len() > 0
                ==> a.decoded_with_markets(),
        forall|i: int|
            0 <= i < a.titles@.len() && (#[trigger] a.titles@[i]).iso_3166_1@.len() > 0
                ==> a.decoded_with_markets(),
        a.decoded_with_markets() && a.results@.len() + a.titles@.len() > 0 ==> {
            ||| exists|i: int|
                0 <= i < a.results@.len() && (#[trigger] a.results@[i]).iso_3166_1@.len() > 0
            ||| exists|i: int|
                0 <= i < a.titles@.len() && (#[trigger] a.titles@[i]).iso_3166_1@.len() > 0
        },
{
    let n = a.results@.len() as int;
    assert forall|i: int|
        0 <= i < a.results@.len() && (#[trigger] a.results@[i]).iso_3166_1@.len()
            > 0 implies a.decoded_with_markets() by {
        assert(a.listed()[i].1.len() > 0);
    }
    assert forall|i: int|
        0 <= i < a.titles@.len() && (#[trigger] a.titles@[i]).iso_3166_1@.len()
            > 0 implies a.decoded_with_markets() by {
        assert(a.listed()[n + i].1.len() > 0);
    }
    if a.decoded_with_markets() && a.results@.len() + a.titles@.len() > 0 {
        let i = choose|i: int| 0 <= i < a.listed().len() && (#[trigger] a.listed()[i]).1.len() > 0;
        if i < n {
            assert(a.results@[i].iso_3166_1@.len() > 0);
        } else {
            assert(a.titles@[i - n].iso_3166_1@.len() > 0);
        }
    }
}

} // verus!
