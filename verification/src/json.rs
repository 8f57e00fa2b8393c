//! The cluster distributions of both species as JSON text.
//!
//! The stored counts are whole numbers. They are turned into frequencies
//! only here, when the text is written.

use vstd::prelude::*;
use vstd::string::*;
use crate::decimal::{append_decimal, decimal};
use crate::distribution::{lemma_distribution_determined, ClusterDistribution};
use crate::results::ModelResults;
use crate::text::{encoded, into_encoded};

verus! {

/// One cluster size with its frequency, the frequency already in its
/// textual form.
pub struct Share {
    pub size: u32,
    pub frequency: String,
}

/// The distribution found at one temperature, the temperature already in
/// its textual form.
pub struct Sample {
    pub temperature: String,
    pub shares: Vec<Share>,
}

/// The items of a list, each on lines of its own, with a comma after every
/// item but the last.
pub open spec fn listing(items: Seq<Seq<char>>) -> Seq<char>
    decreases items.len(),
{
    if items.len() == 0 {
        Seq::empty()
    } else if items.len() == 1 {
        items[0]
    } else {
        listing(items.drop_last()) + ",\n"@ + items.last()
    }
}

/// A listing grows by a comma, a line break and the next item; its first
/// item stands alone.
pub proof fn lemma_listing_next(items: Seq<Seq<char>>, i: int)
    requires
        0 <= i < items.len(),
    ensures
        listing(items.take(i + 1)) == if i == 0 {
            items[0]
        } else {
            listing(items.take(i)) + ",\n"@ + items[i]
        },
{
    assert(items.take(i + 1).drop_last() =~= items.take(i));
    assert(items.take(i + 1).last() == items[i]);
}

/// The line of one cluster size: the size as a quoted key, then the
/// frequency.
pub open spec fn share_line(share: Share) -> Seq<char> {
    "          \""@ + decimal(share.size as nat) + "\": "@ + share.frequency@
}

/// The lines of all cluster sizes of one distribution.
pub open spec fn share_lines(shares: Seq<Share>) -> Seq<Seq<char>> {
    shares.map_values(|share: Share| share_line(share))
}

/// The `distribution` member of one sample, up to the line before its
/// closing brace: the opening line, then one line per cluster size. A
/// distribution without any cluster size is the empty object.
pub open spec fn distribution_text(shares: Seq<Share>) -> Seq<char> {
    "        \"distribution\": {\n"@ + if shares.len() == 0 {
        Seq::<char>::empty()
    } else {
        listing(share_lines(shares)) + "\n"@
    }
}

/// One sample as a JSON object, without what separates it from the next.
pub open spec fn sample_text(sample: Sample) -> Seq<char> {
    "    {\n"@ + "        \"temperature\": "@ + sample.temperature@ + ",\n"@ + distribution_text(
        sample.shares@,
    ) + "      }\n"@ + "    }"@
}

/// The texts of all samples of one species.
pub open spec fn sample_texts(samples: Seq<Sample>) -> Seq<Seq<char>> {
    samples.map_values(|sample: Sample| sample_text(sample))
}

/// The object of one species, up to the line before its closing brace: its
/// name, the opening line of its list, the samples, and the closing line of
/// the list. A species without any sample has the empty list.
pub open spec fn species_text(atom: Seq<char>, samples: Seq<Sample>) -> Seq<char> {
    "  {\n"@ + "    \"atom\": \""@ + atom + "\",\n"@ + "    \"distributions\": [\n"@
        + if samples.len() == 0 {
        Seq::<char>::empty()
    } else {
        listing(sample_texts(samples)) + "\n"@
    } + "    ]\n"@
}

/// The whole document: an array of two objects, species `A` first.
pub open spec fn json_text(first: Seq<Sample>, second: Seq<Sample>) -> Seq<char> {
    "[\n"@ + species_text("A"@, first) + "  },\n"@ + species_text("B"@, second) + "  }\n"@
        + "]\n"@
}

fn append_distribution(text: &mut String, shares: &Vec<Share>)
    ensures
        final(text)@ == old(text)@ + distribution_text(shares@),
{
    text.append("        \"distribution\": {\n");
    if shares.len() == 0 {
        assert(text@ =~= old(text)@ + distribution_text(shares@));
        return ;
    }
    let ghost lines = share_lines(shares@);
    let ghost base = text@;
    let mut i: usize = 0;
    proof {
        assert(lines.take(0) =~= Seq::<Seq<char>>::empty());
        assert(text@ =~= base + listing(lines.take(0)));
    }
    while i < shares.len()
        invariant
            i <= shares@.len(),
            lines == share_lines(shares@),
            text@ == base + listing(lines.take(i as int)),
        decreases shares@.len() - i,
    {
        let ghost before = text@;
        if i > 0 {
            text.append(",\n");
        }
        text.append("          \"");
        append_decimal(text, shares[i].size as u64);
        text.append("\": ");
        text.append(shares[i].frequency.as_str());
        proof {
            lemma_listing_next(lines, i as int);
            assert(lines[i as int] == share_line(shares@[i as int]));
            if i > 0 {
                assert(text@ =~= before + ",\n"@ + lines[i as int]);
            } else {
                assert(text@ =~= before + lines[i as int]);
            }
            assert(text@ =~= base + listing(lines.take(i + 1)));
        }
        i += 1;
    }
    text.append("\n");
    proof {
        assert(lines.take(i as int) =~= lines);
        assert(text@ =~= old(text)@ + distribution_text(shares@));
    }
}

fn append_sample(text: &mut String, sample: &Sample)
    ensures
        final(text)@ == old(text)@ + sample_text(*sample),
{
    text.append("    {\n");
    text.append("        \"temperature\": ");
    text.append(sample.temperature.as_str());
    text.append(",\n");
    append_distribution(text, &sample.shares);
    text.append("      }\n");
    text.append("    }");
    assert(text@ =~= old(text)@ + sample_text(*sample));
}

fn append_species(text: &mut String, atom: &str, samples: &Vec<Sample>)
    ensures
        final(text)@ == old(text)@ + species_text(atom@, samples@),
{
    text.append("  {\n");
    text.append("    \"atom\": \"");
    text.append(atom);
    text.append("\",\n");
    text.append("    \"distributions\": [\n");
    if samples.len() > 0 {
        let ghost items = sample_texts(samples@);
        let ghost base = text@;
        let mut i: usize = 0;
        proof {
            assert(items.take(0) =~= Seq::<Seq<char>>::empty());
            assert(text@ =~= base + listing(items.take(0)));
        }
        while i < samples.len()
            invariant
                i <= samples@.len(),
                items == sample_texts(samples@),
                text@ == base + listing(items.take(i as int)),
            decreases samples@.len() - i,
        {
            let ghost before = text@;
            if i > 0 {
                text.append(",\n");
            }
            append_sample(text, &samples[i]);
            proof {
                lemma_listing_next(items, i as int);
                assert(items[i as int] == sample_text(samples@[i as int]));
                if i > 0 {
                    assert(text@ =~= before + ",\n"@ + items[i as int]);
                } else {
                    assert(text@ =~= before + items[i as int]);
                }
                assert(text@ =~= base + listing(items.take(i + 1)));
            }
            i += 1;
        }
        text.append("\n");
        proof {
            assert(items.take(i as int) =~= items);
        }
    }
    text.append("    ]\n");
    assert(text@ =~= old(text)@ + species_text(atom@, samples@));
}

/// The document for the samples `first` of species `A` and `second` of
/// species `B`, as the bytes of a file.
pub fn json_document(first: &Vec<Sample>, second: &Vec<Sample>) -> (bytes: Vec<u8>)
    ensures
        bytes@ == encoded(json_text(first@, second@)),
{
    let mut text = String::from_str("[\n");
    append_species(&mut text, "A", first);
    text.append("  },\n");
    append_species(&mut text, "B", second);
    text.append("  }\n");
    text.append("]\n");
    assert(text@ =~= json_text(first@, second@));
    into_encoded(text)
}

/// Whether `shares` lists the cluster sizes of `distribution` in ascending
/// order, each with what `show_share` makes of its count and of the number
/// of samples merged per temperature.
pub open spec fn shares_shown<G: Fn(u32, u32) -> String>(
    show_share: G,
    distribution: &ClusterDistribution,
    samples_per_temp: u32,
    shares: Seq<Share>,
) -> bool {
    &&& shares.len() == distribution.entries().len()
    &&& forall|j: int|
        0 <= j < shares.len() ==> {
            &&& (#[trigger] shares[j]).size == distribution.entries()[j].0
            &&& call_ensures(
                show_share,
                (distribution.entries()[j].1, samples_per_temp),
                shares[j].frequency,
            )
        }
}

/// Whether `sample` holds what the two rules make of one temperature and
/// its distribution.
pub open spec fn sample_shown<T, F: Fn(T) -> String, G: Fn(u32, u32) -> String>(
    show: F,
    show_share: G,
    temp: T,
    distribution: &ClusterDistribution,
    samples_per_temp: u32,
    sample: Sample,
) -> bool {
    &&& call_ensures(show, (temp,), sample.temperature)
    &&& shares_shown(show_share, distribution, samples_per_temp, sample.shares@)
}

/// Whether `samples` holds, temperature by temperature, what the two rules
/// make of a ladder and of the distributions found along it.
pub open spec fn samples_shown<T, F: Fn(T) -> String, G: Fn(u32, u32) -> String>(
    show: F,
    show_share: G,
    temp: Seq<T>,
    distributions: Seq<ClusterDistribution>,
    samples_per_temp: u32,
    samples: Seq<Sample>,
) -> bool {
    &&& samples.len() == temp.len()
    &&& forall|i: int|
        0 <= i < samples.len() ==> sample_shown(
            show,
            show_share,
            temp[i],
            &distributions[i],
            samples_per_temp,
            #[trigger] samples[i],
        )
}

/// Puts one distribution into its textual form.
pub fn render_shares<G: Fn(u32, u32) -> String>(
    distribution: &ClusterDistribution,
    samples_per_temp: u32,
    show_share: &G,
) -> (shares: Vec<Share>)
    requires
        forall|count: u32, samples: u32| call_requires(*show_share, (count, samples)),
    ensures
        shares_shown(*show_share, distribution, samples_per_temp, shares@),
{
    let mut shares: Vec<Share> = Vec::new();
    let mut j: usize = 0;
    while j < distribution.len()
        invariant
            j <= distribution.entries().len(),
            forall|count: u32, samples: u32| call_requires(*show_share, (count, samples)),
            shares@.len() == j,
            forall|k: int|
                0 <= k < j ==> {
                    &&& (#[trigger] shares@[k]).size == distribution.entries()[k].0
                    &&& call_ensures(
                        *show_share,
                        (distribution.entries()[k].1, samples_per_temp),
                        shares@[k].frequency,
                    )
                },
        decreases distribution.entries().len() - j,
    {
        let pair = distribution.entry(j);
        let frequency = show_share(pair.1, samples_per_temp);
        shares.push(Share { size: pair.0, frequency });
        j += 1;
    }
    shares
}

/// Puts the distributions found along a ladder into their textual form.
pub fn render_samples<T: Copy, F: Fn(T) -> String, G: Fn(u32, u32) -> String>(
    temp: &Vec<T>,
    distributions: &Vec<ClusterDistribution>,
    samples_per_temp: u32,
    show: &F,
    show_share: &G,
) -> (samples: Vec<Sample>)
    requires
        distributions@.len() == temp@.len(),
        forall|value: T| call_requires(*show, (value,)),
        forall|count: u32, samples: u32| call_requires(*show_share, (count, samples)),
    ensures
        samples_shown(*show, *show_share, temp@, distributions@, samples_per_temp, samples@),
{
    let mut samples: Vec<Sample> = Vec::new();
    let mut i: usize = 0;
    while i < temp.len()
        invariant
            i <= temp@.len(),
            distributions@.len() == temp@.len(),
            forall|value: T| call_requires(*show, (value,)),
            forall|count: u32, samples: u32| call_requires(*show_share, (count, samples)),
            samples@.len() == i,
            forall|k: int|
                0 <= k < i ==> sample_shown(
                    *show,
                    *show_share,
                    temp@[k],
                    &distributions@[k],
                    samples_per_temp,
                    #[trigger] samples@[k],
                ),
        decreases temp@.len() - i,
    {
        let temperature = show(temp[i]);
        let shares = render_shares(&distributions[i], samples_per_temp, show_share);
        samples.push(Sample { temperature, shares });
        i += 1;
    }
    samples
}

impl<T: Copy> ModelResults<T> {
    /// The cluster distributions of the log as the bytes of a JSON file,
    /// with `show` as the rule for the text of a temperature and
    /// `show_share` as the rule for the text of a frequency, given a count
    /// and the number of samples merged per temperature.
    pub fn make_json_buffer<F: Fn(T) -> String, G: Fn(u32, u32) -> String>(
        &self,
        show: F,
        show_share: G,
    ) -> (bytes: Vec<u8>)
        requires
            self.aligned(),
            forall|value: T| call_requires(show, (value,)),
            forall|count: u32, samples: u32| call_requires(show_share, (count, samples)),
        ensures
            exists|first: Seq<Sample>, second: Seq<Sample>|
                {
                    &&& samples_shown(
                        show,
                        show_share,
                        self.temp@,
                        self.distr_0@,
                        self.distrs_per_temp,
                        first,
                    )
                    &&& samples_shown(
                        show,
                        show_share,
                        self.temp@,
                        self.distr_1@,
                        self.distrs_per_temp,
                        second,
                    )
                    &&& bytes@ == encoded(#[trigger] json_text(first, second))
                },
    {
        let first = render_samples(
            &self.temp,
            &self.distr_0,
            self.distrs_per_temp,
            &show,
            &show_share,
        );
        let second = render_samples(
            &self.temp,
            &self.distr_1,
            self.distrs_per_temp,
            &show,
            &show_share,
        );
        json_document(&first, &second)
    }
}

/// A rule for the text of a value that gives one text per value.
pub open spec fn show_is_function<T, F: Fn(T) -> String>(show: F) -> bool {
    forall|value: T, a: String, b: String|
        call_ensures(show, (value,), a) && call_ensures(show, (value,), b) ==> a@ == b@
}

/// A rule for the text of a frequency that gives one text per count and
/// number of samples.
pub open spec fn share_is_function<G: Fn(u32, u32) -> String>(show_share: G) -> bool {
    forall|count: u32, samples: u32, a: String, b: String|
        call_ensures(show_share, (count, samples), a) && call_ensures(
            show_share,
            (count, samples),
            b,
        ) ==> a@ == b@
}

/// The text of a species depends on the merged counts alone: two columns
/// of well-formed distributions that agree as mappings, temperature by
/// temperature, are written as the same text, in whatever order their
/// samples were merged.
pub proof fn lemma_text_follows_counts<T, F: Fn(T) -> String, G: Fn(u32, u32) -> String>(
    show: F,
    show_share: G,
    temp: Seq<T>,
    stored: Seq<ClusterDistribution>,
    other: Seq<ClusterDistribution>,
    samples_per_temp: u32,
    first: Seq<Sample>,
    second: Seq<Sample>,
    atom: Seq<char>,
)
    requires
        show_is_function(show),
        share_is_function(show_share),
        stored.len() == temp.len(),
        other.len() == temp.len(),
        forall|i: int|
            0 <= i < temp.len() ==> {
                &&& (#[trigger] stored[i]).wf()
                &&& other[i].wf()
                &&& stored[i]@ == other[i]@
            },
        samples_shown(show, show_share, temp, stored, samples_per_temp, first),
        samples_shown(show, show_share, temp, other, samples_per_temp, second),
    ensures
        species_text(atom, first) == species_text(atom, second),
{
    assert forall|i: int| 0 <= i < temp.len() implies sample_text(first[i]) == sample_text(
        second[i],
    ) by {
        assert(stored[i].wf());
        lemma_distribution_determined(stored[i], other[i]);
        assert(sample_shown(show, show_share, temp[i], &stored[i], samples_per_temp, first[i]));
        assert(sample_shown(show, show_share, temp[i], &other[i], samples_per_temp, second[i]));
        let a = first[i].shares@;
        let b = second[i].shares@;
        assert forall|k: int| 0 <= k < a.len() implies share_line(a[k]) == share_line(b[k]) by {
            assert(a[k].size == b[k].size);
            assert(a[k].frequency@ == b[k].frequency@);
        }
        assert(share_lines(a) =~= share_lines(b));
        assert(first[i].temperature@ == second[i].temperature@);
    }
    assert(sample_texts(first) =~= sample_texts(second));
}

} // verus!
