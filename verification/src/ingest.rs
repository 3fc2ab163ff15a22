//! Ingestion: a raw byte batch is split into records by the csv reader,
//! each record is read as two non-negative integers, and the pairs are fed
//! to the registry and the store. A batch with any unreadable record is
//! refused whole, before any state changes.
use vstd::prelude::*;
use crate::digits::parse_spec;
use crate::digits::parse_usize;
use crate::network::AmazonNetwork;
use crate::network::ingest_model;
use crate::store::STORE_CAP;
use crate::NetworkError;

verus! {

/// The record batch that the csv reader, in its default configuration
/// (comma separated, first row taken as a header and excluded), extracts
/// from a byte sequence; `None` when the reader reports an error.
pub uninterp spec fn csv_records_of(data: Seq<u8>) -> Option<Seq<Seq<Seq<char>>>>;

#[verifier::external_type_specification]
#[verifier::external_body]
pub struct ExCsvError(csv::Error);

/// Relies on csv's `ReaderBuilder` and `StringRecord`: with the default
/// configuration the records drawn from a byte slice are a function of the
/// bytes alone, the first row serving as the header.
#[verifier::external_body]
pub(crate) fn csv_parse(data: &[u8]) -> (r: Result<Vec<Vec<String>>, csv::Error>)
    ensures
        (r is Ok) <==> (csv_records_of(data@) is Some),
        r matches Ok(recs) ==> Some(recs.deep_view()) == csv_records_of(data@),
{
    let mut rdr = csv::ReaderBuilder::new().from_reader(data);
    let mut out: Vec<Vec<String>> = Vec::new();
    for record in rdr.records() {
        match record {
            Ok(rec) => out.push(rec.iter().map(|field| field.to_string()).collect()),
            Err(e) => return Err(e),
        }
    }
    Ok(out)
}

/// A record is readable when it has exactly two fields and each reads as
/// a non-negative integer that fits the handle type.
pub open spec fn record_valid(rec: Seq<Seq<char>>) -> bool {
    &&& rec.len() == 2
    &&& parse_spec(rec[0]) is Some
    &&& parse_spec(rec[1]) is Some
}

pub open spec fn all_records_valid(recs: Seq<Seq<Seq<char>>>) -> bool {
    forall|i: int| 0 <= i < recs.len() ==> record_valid(#[trigger] recs[i])
}

/// The (from, to) pair a readable record denotes.
pub open spec fn pair_of(rec: Seq<Seq<char>>) -> (usize, usize) {
    (parse_spec(rec[0]).unwrap() as usize, parse_spec(rec[1]).unwrap() as usize)
}

pub open spec fn pairs_of(recs: Seq<Seq<Seq<char>>>) -> Seq<(usize, usize)> {
    Seq::new(recs.len(), |i: int| pair_of(recs[i]))
}

/// Read every record as a (from, to) pair of non-negative integers;
/// refuse the whole batch on the first record that cannot be read.
pub fn parse_pairs(records: &Vec<Vec<String>>) -> (r: Result<Vec<(usize, usize)>, NetworkError>)
    ensures
        (r is Ok) <==> all_records_valid(records.deep_view()),
        r matches Ok(pairs) ==> pairs@ == pairs_of(records.deep_view()),
        r matches Err(e) ==> e == NetworkError::MalformedRecord,
{
    let ghost recs = records.deep_view();
    let mut pairs: Vec<(usize, usize)> = Vec::new();
    let mut i: usize = 0;
    while i < records.len()
        invariant
            i <= records.len(),
            recs == records.deep_view(),
            recs.len() == records.len(),
            forall|j: int| 0 <= j < i ==> record_valid(#[trigger] recs[j]),
            pairs@.len() == i,
            forall|j: int| 0 <= j < i ==> pairs@[j] == pair_of(#[trigger] recs[j]),
        decreases records.len() - i,
    {
        let record = &records[i];
        proof {
            assert(recs[i as int] == record.deep_view());
            assert(record.deep_view().len() == record@.len());
        }
        if record.len() != 2 {
            proof {
                assert(!record_valid(recs[i as int]));
            }
            return Err(NetworkError::MalformedRecord);
        }
        proof {
            assert(record.deep_view()[0] == record@[0]@);
            assert(record.deep_view()[1] == record@[1]@);
        }
        let from = match parse_usize(record[0].as_str()) {
            Some(v) => v,
            None => {
                return Err(NetworkError::MalformedRecord);
            },
        };
        let to = match parse_usize(record[1].as_str()) {
            Some(v) => v,
            None => {
                return Err(NetworkError::MalformedRecord);
            },
        };
        pairs.push((from, to));
        i = i + 1;
    }
    proof {
        assert(pairs@ =~= pairs_of(recs));
    }
    Ok(pairs)
}

impl AmazonNetwork {
    /// Ingest a raw byte batch: split it into records, read each record
    /// as two identifiers, and build nodes and edges from the pairs, in
    /// order. On any failure — the reader refuses the bytes, a record is
    /// unreadable, or the batch would overrun the store's index space —
    /// the engine is left exactly as it was.
    pub fn read_data(&mut self, data: &[u8]) -> (r: Result<(), NetworkError>)
        requires
            old(self).wf(),
        ensures
            final(self).wf(),
            r is Err ==> *final(self) == *old(self),
            match csv_records_of(data@) {
                None => r == Err::<(), NetworkError>(NetworkError::MalformedRecord),
                Some(recs) => {
                    if !all_records_valid(recs) {
                        r == Err::<(), NetworkError>(NetworkError::MalformedRecord)
                    } else if old(self).labels().len() + 2 * pairs_of(recs).len() > STORE_CAP as int
                        || old(self).edges().len() + pairs_of(recs).len() > STORE_CAP as int {
                        r == Err::<(), NetworkError>(NetworkError::CapacityExceeded)
                    } else {
                        r is Ok && final(self).model() == ingest_model(
                            old(self).model(),
                            pairs_of(recs),
                        )
                    }
                },
            },
    {
        let records = match csv_parse(data) {
            Ok(records) => records,
            Err(_) => {
                return Err(NetworkError::MalformedRecord);
            },
        };
        let pairs = match parse_pairs(&records) {
            Ok(pairs) => pairs,
            Err(e) => {
                return Err(e);
            },
        };
        let n = self.node_count();
        let e = self.edge_count();
        if pairs.len() > (STORE_CAP - n) / 2 || pairs.len() > STORE_CAP - e {
            return Err(NetworkError::CapacityExceeded);
        }
        self.ingest_pairs(&pairs);
        Ok(())
    }
}

} // verus!
