//! The current stable Nixpkgs release number, read out of the channel
//! listing that the Nixpkgs manual page carries in a data attribute.
//!
//! The caller fetches the manual page; everything decided from its text —
//! locating the attribute, reading the channel list, picking the wanted
//! channel — happens here, with the JSON reading behind trusted wrappers
//! over serde_json.

use vstd::prelude::*;
use serde_json::Value;
use crate::soup::{parse_document, doc_find, el_attr};

verus! {

#[verifier::external_type_specification]
#[verifier::external_body]
pub struct ExValue(Value);

/// Relies on serde_json's `from_str`: parses a JSON document, failing on
/// invalid JSON.
#[verifier::external_body]
fn json_parse(s: &str) -> Option<Value> {
    serde_json::from_str(s).ok()
}

/// Relies on serde_json's `Value::as_array`: the elements, when the value
/// is an array.
#[verifier::external_body]
fn json_as_array(v: &Value) -> Option<&Vec<Value>> {
    v.as_array()
}

/// Relies on serde_json's `Value::get`: the member under the key, when
/// the value is an object holding one.
#[verifier::external_body]
fn json_get<'a>(v: &'a Value, key: &str) -> Option<&'a Value> {
    v.get(key)
}

/// Relies on serde_json's `Value::as_str`: the content, when the value is
/// a string.
#[verifier::external_body]
fn json_as_str(v: &Value) -> Option<String> {
    v.as_str().map(str::to_string)
}

/// One supported Nixpkgs channel, as the manual page lists them.
#[derive(Clone, Debug)]
pub struct NixpkgsChannelVersion {
    /// The channel's status tag, e.g. "stable".
    pub status: String,
    /// The release number, e.g. "24.05".
    pub version: String,
}

/// Spec-level image of a channel entry.
pub ghost struct NixpkgsChannelVersionV {
    pub status: Seq<char>,
    pub version: Seq<char>,
}

impl View for NixpkgsChannelVersion {
    type V = NixpkgsChannelVersionV;

    open spec fn view(&self) -> NixpkgsChannelVersionV {
        NixpkgsChannelVersionV { status: self.status@, version: self.version@ }
    }
}

/// The version of the first channel whose status tag matches.
pub open spec fn spec_find_channel(
    channels: Seq<NixpkgsChannelVersionV>,
    want: Seq<char>,
) -> Option<Seq<char>>
    decreases channels.len(),
{
    if channels.len() == 0 {
        Option::None
    } else if channels[0].status == want {
        Option::Some(channels[0].version)
    } else {
        spec_find_channel(channels.drop_first(), want)
    }
}

/// The images of a channel list.
pub open spec fn channel_views_of(s: Seq<NixpkgsChannelVersion>) -> Seq<NixpkgsChannelVersionV> {
    s.map_values(|c: NixpkgsChannelVersion| c@)
}

/// One channel entry as the not-found message renders it.
pub open spec fn spec_channel_item(c: NixpkgsChannelVersionV) -> Seq<char> {
    c.status + ": "@ + c.version
}

/// The rendered channel list: entries in order, comma separated.
pub open spec fn spec_channels_list(s: Seq<NixpkgsChannelVersionV>) -> Seq<char>
    decreases s.len(),
{
    if s.len() == 0 {
        Seq::empty()
    } else if s.len() == 1 {
        spec_channel_item(s[0])
    } else {
        spec_channel_item(s[0]) + ", "@ + spec_channels_list(s.drop_first())
    }
}

/// Appending one more entry extends the rendered list by a comma and the
/// entry, except for the first.
proof fn lemma_channels_list_snoc(s: Seq<NixpkgsChannelVersionV>, c: NixpkgsChannelVersionV)
    ensures
        spec_channels_list(s.push(c)) == if s.len() == 0 {
            spec_channel_item(c)
        } else {
            spec_channels_list(s) + ", "@ + spec_channel_item(c)
        },
    decreases s.len(),
{
    if s.len() == 0 {
        assert(s.push(c).len() == 1);
        assert(s.push(c)[0] == c);
    } else {
        assert(s.push(c).drop_first() =~= s.drop_first().push(c));
        lemma_channels_list_snoc(s.drop_first(), c);
        assert(s.push(c)[0] == s[0]);
        if s.len() == 1 {
            assert(spec_channels_list(s.push(c)) =~= spec_channels_list(s) + ", "@
                + spec_channel_item(c));
        } else {
            assert(spec_channels_list(s.push(c)) =~= spec_channels_list(s) + ", "@
                + spec_channel_item(c));
        }
    }
}

/// The message a failed channel lookup carries: it names the wanted tag
/// and lists the channels that were offered.
pub open spec fn spec_channel_not_found_message(
    want: Seq<char>,
    channels: Seq<NixpkgsChannelVersionV>,
) -> Seq<char> {
    "could not find '"@ + want + "' from supported channels: ["@ + spec_channels_list(channels)
        + seq![']']
}

fn channels_list(channels: &Vec<NixpkgsChannelVersion>) -> (r: String)
    ensures
        r@ == spec_channels_list(channel_views_of(channels@)),
{
    let ghost all = channel_views_of(channels@);
    let mut out = String::new();
    let mut i: usize = 0;
    proof {
        assert(channel_views_of(channels@.subrange(0, 0)) =~= Seq::<
            NixpkgsChannelVersionV,
        >::empty());
    }
    while i < channels.len()
        invariant
            0 <= i <= channels@.len(),
            all == channel_views_of(channels@),
            out@ == spec_channels_list(channel_views_of(channels@.subrange(0, i as int))),
        decreases channels@.len() - i,
    {
        if i > 0 {
            out.append(", ");
        }
        out.append(channels[i].status.as_str());
        out.append(": ");
        out.append(channels[i].version.as_str());
        proof {
            let pre = channel_views_of(channels@.subrange(0, i as int));
            let cur = channel_views_of(channels@.subrange(0, i as int + 1));
            assert(cur =~= pre.push(channels@[i as int]@));
            lemma_channels_list_snoc(pre, channels@[i as int]@);
            assert(out@ =~= spec_channels_list(cur));
        }
        i = i + 1;
    }
    proof {
        assert(channels@.subrange(0, channels@.len() as int) =~= channels@);
    }
    out
}

impl NixpkgsChannelVersion {
    /// Reads the channel list out of the manual's attribute text: a JSON
    /// array of objects carrying `channel` and `version` strings; any
    /// other shape is no list at all.
    pub fn parse_channels(text: &str) -> Option<Vec<NixpkgsChannelVersion>> {
        let parsed = match json_parse(text) {
            Option::None => {
                return Option::None;
            },
            Option::Some(v) => v,
        };
        let arr = match json_as_array(&parsed) {
            Option::None => {
                return Option::None;
            },
            Option::Some(a) => a,
        };
        let mut channels: Vec<NixpkgsChannelVersion> = Vec::new();
        let mut i: usize = 0;
        while i < arr.len()
            decreases arr.len() - i,
        {
            let item = &arr[i];
            let status = match json_get(item, "channel") {
                Option::None => {
                    return Option::None;
                },
                Option::Some(v) => match json_as_str(v) {
                    Option::None => {
                        return Option::None;
                    },
                    Option::Some(s) => s,
                },
            };
            let version = match json_get(item, "version") {
                Option::None => {
                    return Option::None;
                },
                Option::Some(v) => match json_as_str(v) {
                    Option::None => {
                        return Option::None;
                    },
                    Option::Some(s) => s,
                },
            };
            channels.push(NixpkgsChannelVersion { status, version });
            i = i + 1;
        }
        Option::Some(channels)
    }

    /// Picks the first channel with the wanted status tag out of the
    /// list, failing with a message naming the tag when none matches.
    pub fn fetch_channel(channels: &Vec<NixpkgsChannelVersion>, want: &str) -> (r: Result<
        String,
        String,
    >)
        ensures
            match r {
                Result::Ok(v) => spec_find_channel(channel_views_of(channels@), want@)
                    == Option::Some(v@),
                Result::Err(m) => spec_find_channel(channel_views_of(channels@), want@) is None
                    && m@ == spec_channel_not_found_message(want@, channel_views_of(channels@)),
            },
    {
        let ghost all = channel_views_of(channels@);
        let mut i: usize = 0;
        proof {
            assert(all.subrange(0, all.len() as int) =~= all);
        }
        while i < channels.len()
            invariant
                0 <= i <= channels@.len(),
                all == channel_views_of(channels@),
                all.len() == channels@.len(),
                forall|k: int| 0 <= k < channels@.len() ==> all[k] == #[trigger] channels@[k]@,
                spec_find_channel(all, want@) == spec_find_channel(
                    all.subrange(i as int, all.len() as int),
                    want@,
                ),
            decreases channels@.len() - i,
        {
            let ghost sub_i = all.subrange(i as int, all.len() as int);
            let ghost sub_i1 = all.subrange(i as int + 1, all.len() as int);
            proof {
                assert(sub_i.len() > 0);
                assert(sub_i[0] == all[i as int]);
                assert(sub_i.drop_first() =~= sub_i1);
            }
            if crate::strutil::str_eq(channels[i].status.as_str(), want) {
                return Result::Ok(channels[i].version.clone());
            }
            i = i + 1;
        }
        proof {
            assert(all.subrange(i as int, all.len() as int).len() == 0);
        }
        let mut msg = "could not find '".to_owned();
        msg.append(want);
        msg.append("' from supported channels: [");
        let list = channels_list(channels);
        msg.append(list.as_str());
        msg.append("]");
        proof {
            reveal_strlit("]");
            assert("]"@ =~= seq![']']);
            assert(msg@ =~= spec_channel_not_found_message(want@, channel_views_of(channels@)));
        }
        Result::Err(msg)
    }

    /// Reads the channel list out of a fetched manual page: the
    /// `data-nixpkgs-channels` attribute of its `<body>`.  A failure
    /// carries one of the two fixed messages naming what was missing:
    /// the body element, or a readable channel listing on it.
    pub fn read_channels(html: &str) -> (r: Result<Vec<NixpkgsChannelVersion>, String>)
        ensures
            r matches Result::Err(m) ==> m@ == "fail to read <body> of the Nixpkgs manual"@
                || m@ == "failed to read current channels from the Nixpkgs manual"@,
    {
        let doc = parse_document(html);
        let body = match doc_find(&doc, "body") {
            Option::None => {
                return Result::Err("fail to read <body> of the Nixpkgs manual".to_owned());
            },
            Option::Some(b) => b,
        };
        let attr = match el_attr(&body, "data-nixpkgs-channels") {
            Option::None => {
                return Result::Err(
                    "failed to read current channels from the Nixpkgs manual".to_owned(),
                );
            },
            Option::Some(a) => a,
        };
        match Self::parse_channels(attr.as_str()) {
            Option::None => Result::Err(
                "failed to read current channels from the Nixpkgs manual".to_owned(),
            ),
            Option::Some(channels) => Result::Ok(channels),
        }
    }

    /// The current stable release number, read out of a fetched manual
    /// page: the version of the first channel tagged "stable" in the
    /// page's listing.  A failure carries one of the fixed reading
    /// messages, or the not-found message over the listing that held no
    /// such channel.
    pub fn stable(html: &str) -> (r: Result<String, String>)
        ensures
            match r {
                Result::Ok(v) => exists|channels: Seq<NixpkgsChannelVersionV>|
                    #[trigger] spec_find_channel(channels, "stable"@) == Option::Some(v@),
                Result::Err(m) => m@ == "fail to read <body> of the Nixpkgs manual"@
                    || m@ == "failed to read current channels from the Nixpkgs manual"@
                    || exists|channels: Seq<NixpkgsChannelVersionV>|
                        m@ == #[trigger] spec_channel_not_found_message("stable"@, channels)
                            && spec_find_channel(channels, "stable"@) is None,
            },
    {
        let channels = match Self::read_channels(html) {
            Result::Err(e) => {
                return Result::Err(e);
            },
            Result::Ok(c) => c,
        };
        Self::fetch_channel(&channels, "stable")
    }
}

} // verus!
