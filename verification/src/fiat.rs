//! The fiat lexer: recognition of the fixed known-fiat code set, human
//! names for codes, and parsing of `<number><fiat code>` tokens such as
//! `3.5EUR` into a [`FiatAmount`].
//!
//! Amounts are fixed-point nano-units (billionths of a currency unit),
//! so `3.5EUR` parses to `3_500_000_000` nano-units of `EUR`.

use vstd::prelude::*;

use crate::decimal::{parse_decimal_spec, parse_decimal_nanos};
use crate::strutil::{is_ascii_alpha, upper_seq, upper_matches, lemma_upper_seq_idempotent};

verus! {

/// `u` (an already uppercase-folded code) is one of the recognized fiat
/// currency codes. The fixed set prevents false positives on tokens
/// like `1inch` or `3btc`.
pub open spec fn is_fiat_code(u: Seq<char>) -> bool {
    ||| u == "USD"@
    ||| u == "EUR"@
    ||| u == "GBP"@
    ||| u == "JPY"@
    ||| u == "CNY"@
    ||| u == "CAD"@
    ||| u == "AUD"@
    ||| u == "CHF"@
    ||| u == "KRW"@
    ||| u == "INR"@
    ||| u == "BRL"@
    ||| u == "RUB"@
    ||| u == "TRY"@
    ||| u == "ZAR"@
    ||| u == "MXN"@
    ||| u == "SGD"@
    ||| u == "HKD"@
    ||| u == "NOK"@
    ||| u == "SEK"@
    ||| u == "DKK"@
    ||| u == "NZD"@
    ||| u == "PLN"@
    ||| u == "THB"@
    ||| u == "TWD"@
    ||| u == "CZK"@
    ||| u == "HUF"@
    ||| u == "ILS"@
    ||| u == "PHP"@
    ||| u == "MYR"@
    ||| u == "ARS"@
    ||| u == "CLP"@
    ||| u == "COP"@
    ||| u == "IDR"@
    ||| u == "SAR"@
    ||| u == "AED"@
    ||| u == "NGN"@
    ||| u == "VND"@
    ||| u == "PKR"@
    ||| u == "BDT"@
    ||| u == "EGP"@
}

/// The canonical (uppercase) form of a fiat code, or `None` when `s` is
/// not a known fiat code under ASCII case folding.
pub fn canonical_fiat_code(s: &str) -> (r: Option<&'static str>)
    ensures
        match r {
            Some(c) => c@ == upper_seq(s@) && is_fiat_code(upper_seq(s@)),
            None => !is_fiat_code(upper_seq(s@)),
        },
{
    if upper_matches(s, "USD") {
        Some("USD")
    } else if upper_matches(s, "EUR") {
        Some("EUR")
    } else if upper_matches(s, "GBP") {
        Some("GBP")
    } else if upper_matches(s, "JPY") {
        Some("JPY")
    } else if upper_matches(s, "CNY") {
        Some("CNY")
    } else if upper_matches(s, "CAD") {
        Some("CAD")
    } else if upper_matches(s, "AUD") {
        Some("AUD")
    } else if upper_matches(s, "CHF") {
        Some("CHF")
    } else if upper_matches(s, "KRW") {
        Some("KRW")
    } else if upper_matches(s, "INR") {
        Some("INR")
    } else if upper_matches(s, "BRL") {
        Some("BRL")
    } else if upper_matches(s, "RUB") {
        Some("RUB")
    } else if upper_matches(s, "TRY") {
        Some("TRY")
    } else if upper_matches(s, "ZAR") {
        Some("ZAR")
    } else if upper_matches(s, "MXN") {
        Some("MXN")
    } else if upper_matches(s, "SGD") {
        Some("SGD")
    } else if upper_matches(s, "HKD") {
        Some("HKD")
    } else if upper_matches(s, "NOK") {
        Some("NOK")
    } else if upper_matches(s, "SEK") {
        Some("SEK")
    } else if upper_matches(s, "DKK") {
        Some("DKK")
    } else if upper_matches(s, "NZD") {
        Some("NZD")
    } else if upper_matches(s, "PLN") {
        Some("PLN")
    } else if upper_matches(s, "THB") {
        Some("THB")
    } else if upper_matches(s, "TWD") {
        Some("TWD")
    } else if upper_matches(s, "CZK") {
        Some("CZK")
    } else if upper_matches(s, "HUF") {
        Some("HUF")
    } else if upper_matches(s, "ILS") {
        Some("ILS")
    } else if upper_matches(s, "PHP") {
        Some("PHP")
    } else if upper_matches(s, "MYR") {
        Some("MYR")
    } else if upper_matches(s, "ARS") {
        Some("ARS")
    } else if upper_matches(s, "CLP") {
        Some("CLP")
    } else if upper_matches(s, "COP") {
        Some("COP")
    } else if upper_matches(s, "IDR") {
        Some("IDR")
    } else if upper_matches(s, "SAR") {
        Some("SAR")
    } else if upper_matches(s, "AED") {
        Some("AED")
    } else if upper_matches(s, "NGN") {
        Some("NGN")
    } else if upper_matches(s, "VND") {
        Some("VND")
    } else if upper_matches(s, "PKR") {
        Some("PKR")
    } else if upper_matches(s, "BDT") {
        Some("BDT")
    } else if upper_matches(s, "EGP") {
        Some("EGP")
    } else {
        None
    }
}

/// Case-insensitive membership in the known-fiat set.
pub fn is_known_fiat(s: &str) -> (r: bool)
    ensures
        r == is_fiat_code(upper_seq(s@)),
{
    canonical_fiat_code(s).is_some()
}

/// Recognition of fiat codes is insensitive to ASCII case: folding the
/// argument first does not change the answer.
pub proof fn lemma_known_fiat_case_insensitive(s: Seq<char>)
    ensures
        is_fiat_code(upper_seq(upper_seq(s))) == is_fiat_code(upper_seq(s)),
{
    lemma_upper_seq_idempotent(s);
}

/// Human-readable name of a fiat code (already folded); unknown codes
/// map to themselves.
pub open spec fn fiat_name_spec(u: Seq<char>) -> Seq<char> {
    if u == "USD"@ {
        "US Dollar"@
    } else if u == "EUR"@ {
        "Euro"@
    } else if u == "GBP"@ {
        "British Pound"@
    } else if u == "JPY"@ {
        "Japanese Yen"@
    } else if u == "CNY"@ {
        "Chinese Yuan"@
    } else if u == "CAD"@ {
        "Canadian Dollar"@
    } else if u == "AUD"@ {
        "Australian Dollar"@
    } else if u == "CHF"@ {
        "Swiss Franc"@
    } else if u == "KRW"@ {
        "South Korean Won"@
    } else if u == "INR"@ {
        "Indian Rupee"@
    } else if u == "BRL"@ {
        "Brazilian Real"@
    } else if u == "RUB"@ {
        "Russian Ruble"@
    } else if u == "TRY"@ {
        "Turkish Lira"@
    } else if u == "ZAR"@ {
        "South African Rand"@
    } else if u == "MXN"@ {
        "Mexican Peso"@
    } else if u == "SGD"@ {
        "Singapore Dollar"@
    } else if u == "HKD"@ {
        "Hong Kong Dollar"@
    } else if u == "NOK"@ {
        "Norwegian Krone"@
    } else if u == "SEK"@ {
        "Swedish Krona"@
    } else if u == "DKK"@ {
        "Danish Krone"@
    } else if u == "NZD"@ {
        "New Zealand Dollar"@
    } else if u == "PLN"@ {
        "Polish Zloty"@
    } else if u == "THB"@ {
        "Thai Baht"@
    } else if u == "TWD"@ {
        "New Taiwan Dollar"@
    } else if u == "CZK"@ {
        "Czech Koruna"@
    } else if u == "HUF"@ {
        "Hungarian Forint"@
    } else if u == "ILS"@ {
        "Israeli Shekel"@
    } else if u == "PHP"@ {
        "Philippine Peso"@
    } else if u == "MYR"@ {
        "Malaysian Ringgit"@
    } else if u == "ARS"@ {
        "Argentine Peso"@
    } else if u == "CLP"@ {
        "Chilean Peso"@
    } else if u == "COP"@ {
        "Colombian Peso"@
    } else if u == "IDR"@ {
        "Indonesian Rupiah"@
    } else if u == "SAR"@ {
        "Saudi Riyal"@
    } else if u == "AED"@ {
        "UAE Dirham"@
    } else if u == "NGN"@ {
        "Nigerian Naira"@
    } else if u == "VND"@ {
        "Vietnamese Dong"@
    } else if u == "PKR"@ {
        "Pakistani Rupee"@
    } else if u == "BDT"@ {
        "Bangladeshi Taka"@
    } else if u == "EGP"@ {
        "Egyptian Pound"@
    } else {
        u
    }
}

/// What `fiat_name` returns: the human name of a known code, or the
/// code itself, unchanged, when it is not recognized.
pub open spec fn fiat_display_name(s: Seq<char>) -> Seq<char> {
    if is_fiat_code(upper_seq(s)) {
        fiat_name_spec(upper_seq(s))
    } else {
        s
    }
}

/// Human-readable name for a fiat currency code, case-insensitively;
/// falls back to the code itself when it is not recognized.
pub fn fiat_name(code: &str) -> (r: &str)
    ensures
        r@ == fiat_display_name(code@),
{
    if upper_matches(code, "USD") {
        "US Dollar"
    } else if upper_matches(code, "EUR") {
        "Euro"
    } else if upper_matches(code, "GBP") {
        "British Pound"
    } else if upper_matches(code, "JPY") {
        "Japanese Yen"
    } else if upper_matches(code, "CNY") {
        "Chinese Yuan"
    } else if upper_matches(code, "CAD") {
        "Canadian Dollar"
    } else if upper_matches(code, "AUD") {
        "Australian Dollar"
    } else if upper_matches(code, "CHF") {
        "Swiss Franc"
    } else if upper_matches(code, "KRW") {
        "South Korean Won"
    } else if upper_matches(code, "INR") {
        "Indian Rupee"
    } else if upper_matches(code, "BRL") {
        "Brazilian Real"
    } else if upper_matches(code, "RUB") {
        "Russian Ruble"
    } else if upper_matches(code, "TRY") {
        "Turkish Lira"
    } else if upper_matches(code, "ZAR") {
        "South African Rand"
    } else if upper_matches(code, "MXN") {
        "Mexican Peso"
    } else if upper_matches(code, "SGD") {
        "Singapore Dollar"
    } else if upper_matches(code, "HKD") {
        "Hong Kong Dollar"
    } else if upper_matches(code, "NOK") {
        "Norwegian Krone"
    } else if upper_matches(code, "SEK") {
        "Swedish Krona"
    } else if upper_matches(code, "DKK") {
        "Danish Krone"
    } else if upper_matches(code, "NZD") {
        "New Zealand Dollar"
    } else if upper_matches(code, "PLN") {
        "Polish Zloty"
    } else if upper_matches(code, "THB") {
        "Thai Baht"
    } else if upper_matches(code, "TWD") {
        "New Taiwan Dollar"
    } else if upper_matches(code, "CZK") {
        "Czech Koruna"
    } else if upper_matches(code, "HUF") {
        "Hungarian Forint"
    } else if upper_matches(code, "ILS") {
        "Israeli Shekel"
    } else if upper_matches(code, "PHP") {
        "Philippine Peso"
    } else if upper_matches(code, "MYR") {
        "Malaysian Ringgit"
    } else if upper_matches(code, "ARS") {
        "Argentine Peso"
    } else if upper_matches(code, "CLP") {
        "Chilean Peso"
    } else if upper_matches(code, "COP") {
        "Colombian Peso"
    } else if upper_matches(code, "IDR") {
        "Indonesian Rupiah"
    } else if upper_matches(code, "SAR") {
        "Saudi Riyal"
    } else if upper_matches(code, "AED") {
        "UAE Dirham"
    } else if upper_matches(code, "NGN") {
        "Nigerian Naira"
    } else if upper_matches(code, "VND") {
        "Vietnamese Dong"
    } else if upper_matches(code, "PKR") {
        "Pakistani Rupee"
    } else if upper_matches(code, "BDT") {
        "Bangladeshi Taka"
    } else if upper_matches(code, "EGP") {
        "Egyptian Pound"
    } else {
        code
    }
}


/// A parsed fiat amount from user input (e.g. `3.5EUR`): a positive
/// amount in nano-units and a canonical (uppercase) known-fiat code.
#[derive(Debug, Clone)]
pub struct FiatAmount {
    /// Amount in nano-units (billionths of one currency unit).
    pub amount: u64,
    /// Canonical uppercase fiat code, a member of the known-fiat set.
    pub currency: String,
}

impl FiatAmount {
    /// Invariant: the amount is positive and the code is canonical.
    pub open spec fn wf(self) -> bool {
        self.amount > 0 && is_fiat_code(self.currency@)
    }
}

/// Index of the first ASCII-alphabetic character of `s`, or `s.len()`
/// if there is none.
pub open spec fn first_alpha(s: Seq<char>) -> int
    decreases s.len(),
{
    if s.len() == 0 {
        0
    } else if is_ascii_alpha(s[0]) {
        0
    } else {
        1 + first_alpha(s.drop_first())
    }
}

/// Characterization of `first_alpha`: if nothing before `i` is
/// alphabetic and `i` is the end or alphabetic, the first letter is at `i`.
pub proof fn lemma_first_alpha_is(s: Seq<char>, i: int)
    requires
        0 <= i <= s.len(),
        forall|j: int| 0 <= j < i ==> !is_ascii_alpha(#[trigger] s[j]),
        i == s.len() || is_ascii_alpha(s[i]),
    ensures
        first_alpha(s) == i,
    decreases s.len(),
{
    if s.len() > 0 && i > 0 {
        lemma_first_alpha_is(s.drop_first(), i - 1);
    }
}

/// What `parse_fiat_amount` returns: the nano-unit amount and canonical
/// code when the token splits into a positive, representable decimal
/// prefix and a known fiat code; `None` otherwise.
pub open spec fn parse_fiat_spec(s: Seq<char>) -> Option<(u64, Seq<char>)> {
    let a = first_alpha(s);
    if a == s.len() || a == 0 {
        None
    } else {
        let num = s.take(a);
        let code = s.skip(a);
        if !is_fiat_code(upper_seq(code)) {
            None
        } else {
            match parse_decimal_spec(num) {
                Some(v) => if v > 0 {
                    Some((v, upper_seq(code)))
                } else {
                    None
                },
                None => None,
            }
        }
    }
}

/// Try to parse a token like `3.5EUR` or `100usd` into a `FiatAmount`.
///
/// Succeeds exactly when the token is a decimal prefix followed by an
/// alphabetic suffix that is a known fiat code under case folding, and
/// the prefix parses to a positive value representable in nano-units.
pub fn parse_fiat_amount(s: &str) -> (r: Option<FiatAmount>)
    ensures
        match r {
            Some(fa) => parse_fiat_spec(s@) == Some((fa.amount, fa.currency@)) && fa.wf(),
            None => parse_fiat_spec(s@) is None,
        },
{
    let n = s.unicode_len();
    // Find where the alphabetic suffix starts.
    let mut a: usize = 0;
    let mut found = false;
    while a < n && !found
        invariant
            0 <= a <= n,
            n == s@.len(),
            forall|j: int| 0 <= j < a ==> !is_ascii_alpha(#[trigger] s@[j]),
            found ==> a < n && is_ascii_alpha(s@[a as int]),
        decreases n - a, (if found { 0int } else { 1int }),
    {
        let c = s.get_char(a);
        if (c >= 'a' && c <= 'z') || (c >= 'A' && c <= 'Z') {
            found = true;
        } else {
            a += 1;
        }
    }
    if !found {
        // No alphabetic suffix at all.
        proof {
            lemma_first_alpha_is(s@, n as int);
        }
        return None;
    }
    proof {
        lemma_first_alpha_is(s@, a as int);
    }
    if a == 0 {
        // No numeric prefix before the suffix.
        return None;
    }
    let num_part = s.substring_char(0, a);
    let code_part = s.substring_char(a, n);
    proof {
        assert(num_part@ =~= s@.take(a as int));
        assert(code_part@ =~= s@.skip(a as int));
    }
    let canon = match canonical_fiat_code(code_part) {
        Some(c) => c,
        None => {
            return None;
        },
    };
    let amount = match parse_decimal_nanos(num_part) {
        Some(v) => v,
        None => {
            return None;
        },
    };
    if amount == 0 {
        return None;
    }
    Some(FiatAmount { amount, currency: canon.to_owned() })
}

} // verus!
