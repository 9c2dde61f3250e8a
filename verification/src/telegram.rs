//! The telegram builder: from a verified frame's lines to one record.
//!
//! The first line, stripped of its leading marker and trailing whitespace,
//! is the header; the second is the blank separator; every further line is
//! one measurement. The first decode failure aborts the whole telegram.

use vstd::prelude::*;
use vstd::slice::slice_subrange;
use vstd::utf8::decode_utf8;
use vstd::utf8::valid_utf8;

use crate::attribute::AttrModel;
use crate::attribute::Attribute;
use crate::dispatch::spec_decode_line;
use crate::error::DecodeError;
use crate::error::ErrorModel;
use crate::text::byte_views;
use crate::text::slice_to_vec;
use crate::text::trim_end;
use crate::text::trim_end_ws;
use crate::text::utf8_string;

verus! {

/// One complete, checksum-verified message: the header identification and
/// the decoded measurements in document order.
#[derive(Debug, PartialEq)]
pub struct Telegram {
    pub header: String,
    pub elements: Vec<Attribute>,
}

/// The mathematical shape of a [`Telegram`].
pub struct TelegramModel {
    pub header: Seq<char>,
    pub elements: Seq<AttrModel>,
}

impl DeepView for Telegram {
    type V = TelegramModel;

    open spec fn deep_view(&self) -> TelegramModel {
        TelegramModel { header: self.header@, elements: self.elements.deep_view() }
    }
}

/// What decoding the data lines yields: each line trimmed of trailing
/// whitespace and decoded, the first failure aborting the list.
pub open spec fn spec_elements(lines: Seq<Seq<u8>>) -> Result<Seq<AttrModel>, ErrorModel>
    decreases lines.len(),
{
    if lines.len() == 0 {
        Ok(Seq::<AttrModel>::empty())
    } else {
        match spec_decode_line(trim_end_ws(lines[0])) {
            Err(e) => Err(e),
            Ok(a) => match spec_elements(lines.drop_first()) {
                Err(e) => Err(e),
                Ok(rest) => Ok(seq![a] + rest),
            },
        }
    }
}

/// What building a telegram from a frame's lines yields: too few lines or an
/// empty first line is a malformed frame; otherwise the header is the first
/// line minus its marker, and the lines after the separator decode in order.
pub open spec fn spec_telegram(lines: Seq<Seq<u8>>) -> Result<TelegramModel, ErrorModel> {
    if lines.len() < 2 || lines[0].len() < 1 {
        Err(ErrorModel::FrameTooShort { len: lines.len() as usize })
    } else {
        let hbytes = trim_end_ws(lines[0].skip(1));
        if !valid_utf8(hbytes) {
            Err(ErrorModel::InvalidUtf8 { bytes: hbytes })
        } else {
            match spec_elements(lines.skip(2)) {
                Err(e) => Err(e),
                Ok(els) => Ok(TelegramModel { header: decode_utf8(hbytes), elements: els }),
            }
        }
    }
}

impl Telegram {
    /// Builds a telegram from a verified frame's lines.
    #[verifier::loop_isolation(false)]
    pub fn new(data: &Vec<Vec<u8>>) -> (r: Result<Telegram, DecodeError>)
        ensures
            r matches Ok(t) ==> spec_telegram(byte_views(data@)) == Ok::<
                TelegramModel,
                ErrorModel,
            >(t.deep_view()),
            r matches Err(e) ==> spec_telegram(byte_views(data@)) == Err::<
                TelegramModel,
                ErrorModel,
            >(e.deep_view()),
    {
        let ghost ls = byte_views(data@);
        if data.len() < 2 || data[0].len() < 1 {
            return Err(DecodeError::FrameTooShort { len: data.len() });
        }
        let first = data[0].as_slice();
        let marker_stripped = slice_subrange(first, 1, first.len());
        proof {
            assert(marker_stripped@ =~= ls[0].skip(1));
        }
        let htrim = trim_end(marker_stripped);
        let header = match utf8_string(slice_to_vec(htrim)) {
            Some(s) => s,
            None => {
                return Err(DecodeError::InvalidUtf8 { bytes: slice_to_vec(htrim) });
            },
        };
        let mut elements: Vec<Attribute> = Vec::new();
        let mut i: usize = 2;
        proof {
            assert(ls.skip(2).skip(0) =~= ls.skip(2));
            if spec_elements(ls.skip(2)) is Ok {
                assert(elements.deep_view() + spec_elements(ls.skip(2))->Ok_0 =~~= spec_elements(
                    ls.skip(2),
                )->Ok_0);
            }
        }
        while i < data.len()
            invariant
                2 <= i <= ls.len(),
                spec_elements(ls.skip(2)) == (match spec_elements(ls.skip(i as int)) {
                    Ok(rest) => Ok::<Seq<AttrModel>, ErrorModel>(elements.deep_view() + rest),
                    Err(e) => Err(e),
                }),
            decreases ls.len() - i,
        {
            let ghost pre = elements.deep_view();
            proof {
                assert(ls.skip(i as int)[0] == ls[i as int]);
                assert(ls.skip(i as int).drop_first() =~= ls.skip(i + 1));
            }
            let line = trim_end(data[i].as_slice());
            match Attribute::from_line(line) {
                Err(e) => {
                    return Err(e);
                },
                Ok(a) => {
                    elements.push(a);
                    proof {
                        assert(elements.deep_view() =~~= pre.push(a.deep_view()));
                        if spec_elements(ls.skip(i + 1)) is Ok {
                            let rest = spec_elements(ls.skip(i + 1))->Ok_0;
                            assert(pre + (seq![a.deep_view()] + rest) =~~= pre.push(a.deep_view())
                                + rest);
                        }
                    }
                },
            }
            i = i + 1;
        }
        proof {
            assert(ls.skip(ls.len() as int) =~= Seq::<Seq<u8>>::empty());
            assert(elements.deep_view() + Seq::<AttrModel>::empty() =~~= elements.deep_view());
        }
        Ok(Telegram { header, elements })
    }
}

} // verus!
