//! One table per signal type.
//!
//! The types are taken in the order in which they first appear in the
//! stream, so that the same packets always give the same tables in the same
//! order.

use crate::packet::{texts, DataPacket, PacketView};
use crate::render::{copy_text, packet_record, push_field, render_packet};
use crate::stream::packet_views;
use crate::tables::{
    make_output_name, make_signal_header, output_name, push_record, records_view,
    signal_header, Table, TableView,
};
use crate::text::same_text;
use vstd::prelude::*;

verus! {

/// The distinct type tags of the first `n` packets, each where it first
/// appears.
pub open spec fn tags_upto(packets: Seq<PacketView>, n: int) -> Seq<Seq<char>>
    decreases n,
{
    if n <= 0 {
        Seq::empty()
    } else if tags_upto(packets, n - 1).contains(packets[n - 1].data_type) {
        tags_upto(packets, n - 1)
    } else {
        tags_upto(packets, n - 1).push(packets[n - 1].data_type)
    }
}

/// The distinct type tags of a stream, in order of first appearance.
pub open spec fn tags_of(packets: Seq<PacketView>) -> Seq<Seq<char>> {
    tags_upto(packets, packets.len() as int)
}

/// The records of those of the first `n` packets that have type `tag`, in
/// stream order.
pub open spec fn records_of_type(packets: Seq<PacketView>, tag: Seq<char>, n: int) -> Seq<
    Seq<Seq<char>>,
>
    decreases n,
{
    if n <= 0 {
        Seq::empty()
    } else if packets[n - 1].data_type == tag {
        records_of_type(packets, tag, n - 1).push(packet_record(packets[n - 1]))
    } else {
        records_of_type(packets, tag, n - 1)
    }
}

/// The table of one signal type: its header, then the record of every
/// packet of that type.
pub open spec fn signal_table_of(base: Seq<char>, tag: Seq<char>, packets: Seq<PacketView>)
    -> TableView {
    TableView {
        file_name: output_name(base, tag),
        records: seq![signal_header(tag)] + records_of_type(packets, tag, packets.len() as int),
    }
}

/// The tables of all signal types of a stream, one per distinct type.
pub open spec fn signal_tables_of(base: Seq<char>, packets: Seq<PacketView>) -> Seq<TableView> {
    Seq::new(
        tags_of(packets).len(),
        |k: int| signal_table_of(base, tags_of(packets)[k], packets),
    )
}

/// The content of each table of a sequence.
pub open spec fn table_views(tables: Seq<Table>) -> Seq<TableView> {
    Seq::new(tables.len(), |i: int| tables[i]@)
}

/// Whether one of the first `n` packets has type `tag`.
pub open spec fn type_seen(packets: Seq<PacketView>, n: int, tag: Seq<char>) -> bool {
    exists|i: int| 0 <= i < n && (#[trigger] packets[i]).data_type == tag
}

/// Whether one of the tables has the file name `name`.
pub open spec fn has_table(tables: Seq<TableView>, name: Seq<char>) -> bool {
    exists|k: int| 0 <= k < tables.len() && (#[trigger] tables[k]).file_name == name
}

/// No tag is listed twice, every listed tag is the type of some packet, and
/// the type of every packet is listed.
pub proof fn lemma_tags_exact(packets: Seq<PacketView>, n: int)
    requires
        0 <= n <= packets.len(),
    ensures
        forall|i: int, j: int|
            0 <= i < j < tags_upto(packets, n).len() ==> tags_upto(packets, n)[i] != tags_upto(
                packets,
                n,
            )[j],
        forall|k: int|
            0 <= k < tags_upto(packets, n).len() ==> type_seen(
                packets,
                n,
                #[trigger] tags_upto(packets, n)[k],
            ),
        forall|i: int| 0 <= i < n ==> tags_upto(packets, n).contains((#[trigger] packets[i]).data_type),
    decreases n,
{
    if n > 0 {
        let m = n - 1;
        lemma_tags_exact(packets, m);
        let earlier = tags_upto(packets, m);
        let all = tags_upto(packets, n);
        let tag = packets[m].data_type;
        assert forall|k: int| 0 <= k < all.len() implies type_seen(packets, n, #[trigger] all[k]) by {
            if k < earlier.len() {
                assert(type_seen(packets, m, earlier[k]));
                let i = choose|i: int|
                    0 <= i < m && (#[trigger] packets[i]).data_type == earlier[k];
                assert(packets[i].data_type == all[k]);
            } else {
                assert(packets[m].data_type == all[k]);
            }
        }
        assert forall|i: int| 0 <= i < n implies all.contains((#[trigger] packets[i]).data_type) by {
            if i < m {
                let k = choose|k: int|
                    0 <= k < earlier.len() && earlier[k] == packets[i].data_type;
                assert(all[k] == packets[i].data_type);
            } else if earlier.contains(tag) {
            } else {
                assert(all[all.len() - 1] == tag);
            }
        }
    }
}

/// Every record of a type's table carries that type in its tag column.
pub proof fn lemma_records_carry_tag(packets: Seq<PacketView>, tag: Seq<char>, n: int)
    requires
        0 <= n <= packets.len(),
    ensures
        forall|r: int|
            0 <= r < records_of_type(packets, tag, n).len() ==> (#[trigger] records_of_type(
                packets,
                tag,
                n,
            )[r]).len() >= 7 && records_of_type(packets, tag, n)[r][4] == tag,
    decreases n,
{
    if n > 0 {
        lemma_records_carry_tag(packets, tag, n - 1);
        let earlier = records_of_type(packets, tag, n - 1);
        let all = records_of_type(packets, tag, n);
        assert forall|r: int| 0 <= r < all.len() implies (#[trigger] all[r]).len() >= 7
            && all[r][4] == tag by {
            if r < earlier.len() {
                assert(all[r] == earlier[r]);
            } else {
                assert(all[r] == packet_record(packets[n - 1]));
            }
        }
    }
}

/// How many of the first `n` packets have type `tag`.
pub open spec fn count_of_type(packets: Seq<PacketView>, tag: Seq<char>, n: int) -> nat
    decreases n,
{
    if n <= 0 {
        0
    } else if packets[n - 1].data_type == tag {
        count_of_type(packets, tag, n - 1) + 1
    } else {
        count_of_type(packets, tag, n - 1)
    }
}

/// A type's table has one record for each packet of that type.
pub proof fn lemma_one_record_per_packet(packets: Seq<PacketView>, tag: Seq<char>, n: int)
    requires
        0 <= n <= packets.len(),
    ensures
        records_of_type(packets, tag, n).len() == count_of_type(packets, tag, n),
    decreases n,
{
    if n > 0 {
        lemma_one_record_per_packet(packets, tag, n - 1);
    }
}

/// Two output names over one base are the same only for the same suffix.
pub proof fn lemma_output_name_injective(base: Seq<char>, a: Seq<char>, b: Seq<char>)
    requires
        output_name(base, a) == output_name(base, b),
    ensures
        a == b,
{
    let head = base + "_"@;
    let tail = ".csv"@;
    let left = output_name(base, a);
    let right = output_name(base, b);
    assert(left.len() == head.len() + a.len() + tail.len());
    assert(right.len() == head.len() + b.len() + tail.len());
    assert(a.len() == b.len());
    assert forall|i: int| 0 <= i < a.len() implies a[i] == b[i] by {
        assert(left[head.len() + i] == a[i]);
        assert(right[head.len() + i] == b[i]);
    }
    assert(a =~= b);
}

/// Every distinct type seen in the packets gets exactly one table: the
/// type of every packet has a table, no two tables share a file name, and
/// in each table every record after the header carries the table's type in
/// its tag column.
pub proof fn lemma_one_table_per_type(base: Seq<char>, packets: Seq<PacketView>)
    ensures
        forall|i: int|
            0 <= i < packets.len() ==> has_table(
                signal_tables_of(base, packets),
                output_name(base, (#[trigger] packets[i]).data_type),
            ),
        forall|j: int, k: int|
            0 <= j < k < signal_tables_of(base, packets).len() ==> (#[trigger] signal_tables_of(
                base,
                packets,
            )[j]).file_name != (#[trigger] signal_tables_of(base, packets)[k]).file_name,
        forall|k: int, r: int|
            0 <= k < signal_tables_of(base, packets).len() && 1 <= r < signal_tables_of(
                base,
                packets,
            )[k].records.len() ==> (#[trigger] signal_tables_of(base, packets)[k].records[r])[4]
                == tags_of(packets)[k],
{
    let n = packets.len() as int;
    let tags = tags_of(packets);
    let tables = signal_tables_of(base, packets);
    lemma_tags_exact(packets, n);
    assert forall|i: int| 0 <= i < packets.len() implies has_table(
        tables,
        output_name(base, (#[trigger] packets[i]).data_type),
    ) by {
        assert(tags.contains(packets[i].data_type));
        let k = choose|k: int| 0 <= k < tags.len() && tags[k] == packets[i].data_type;
        assert(tables[k].file_name == output_name(base, packets[i].data_type));
    }
    assert forall|j: int, k: int| 0 <= j < k < tables.len() implies (#[trigger] tables[j]).file_name
        != (#[trigger] tables[k]).file_name by {
        if tables[j].file_name == tables[k].file_name {
            lemma_output_name_injective(base, tags[j], tags[k]);
        }
    }
    assert forall|k: int, r: int|
        0 <= k < tables.len() && 1 <= r < tables[k].records.len() implies (#[trigger] tables[k].records[r])[4]
        == tags[k] by {
        lemma_records_carry_tag(packets, tags[k], n);
        let rows = records_of_type(packets, tags[k], n);
        assert(tables[k].records[r] == rows[r - 1]);
    }
}

fn has_tag(tags: &Vec<String>, tag: &str) -> (found: bool)
    ensures
        found == texts(tags@).contains(tag@),
{
    let mut i: usize = 0;
    while i < tags.len()
        invariant
            i <= tags.len(),
            forall|k: int| 0 <= k < i ==> texts(tags@)[k] != tag@,
        decreases tags.len() - i,
    {
        if same_text(tags[i].as_str(), tag) {
            assert(texts(tags@)[i as int] == tag@);
            return true;
        }
        i = i + 1;
    }
    false
}

/// Lists the distinct type tags of a stream, in order of first appearance.
pub fn type_tags(packets: &Vec<DataPacket>) -> (tags: Vec<String>)
    ensures
        texts(tags@) == tags_of(packet_views(packets@)),
{
    let ghost views = packet_views(packets@);
    let mut tags: Vec<String> = Vec::new();
    let mut i: usize = 0;
    while i < packets.len()
        invariant
            i <= packets.len(),
            views == packet_views(packets@),
            texts(tags@) == tags_upto(views, i as int),
        decreases packets.len() - i,
    {
        assert(views[i as int].data_type == packets[i as int].data_type@);
        if !has_tag(&tags, packets[i].data_type.as_str()) {
            push_field(&mut tags, copy_text(&packets[i].data_type));
        }
        i = i + 1;
    }
    tags
}

/// Lays out the table of one signal type.
pub fn signal_table(base: &str, tag: &str, packets: &Vec<DataPacket>) -> (table: Table)
    ensures
        table@ == signal_table_of(base@, tag@, packet_views(packets@)),
{
    let ghost views = packet_views(packets@);
    let mut records: Vec<Vec<String>> = Vec::new();
    push_record(&mut records, make_signal_header(tag));
    let mut i: usize = 0;
    while i < packets.len()
        invariant
            i <= packets.len(),
            views == packet_views(packets@),
            records_view(records@) == seq![signal_header(tag@)] + records_of_type(
                views,
                tag@,
                i as int,
            ),
        decreases packets.len() - i,
    {
        assert(views[i as int] == packets[i as int]@);
        if same_text(packets[i].data_type.as_str(), tag) {
            push_record(&mut records, render_packet(&packets[i]));
            assert(records_view(records@) =~= seq![signal_header(tag@)] + records_of_type(
                views,
                tag@,
                i + 1,
            ));
        }
        i = i + 1;
    }
    Table { file_name: make_output_name(base, tag), records }
}

/// Lays out the tables of all signal types of a stream.
pub fn signal_tables(base: &str, packets: &Vec<DataPacket>) -> (tables: Vec<Table>)
    ensures
        table_views(tables@) == signal_tables_of(base@, packet_views(packets@)),
{
    let tags: Vec<String> = type_tags(packets);
    let mut tables: Vec<Table> = Vec::new();
    let mut k: usize = 0;
    while k < tags.len()
        invariant
            k <= tags.len(),
            texts(tags@) == tags_of(packet_views(packets@)),
            tables.len() == k,
            forall|j: int|
                0 <= j < k ==> (#[trigger] tables[j])@ == signal_table_of(
                    base@,
                    texts(tags@)[j],
                    packet_views(packets@),
                ),
        decreases tags.len() - k,
    {
        let table: Table = signal_table(base, tags[k].as_str(), packets);
        assert(texts(tags@)[k as int] == tags[k as int]@);
        tables.push(table);
        k = k + 1;
    }
    assert(table_views(tables@) =~= signal_tables_of(base@, packet_views(packets@)));
    tables
}

} // verus!
