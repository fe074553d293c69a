//! Adjective dictionary: 1024 code words held in implicit
//! binary-search-tree order, written as lines of space-separated words.

use vstd::prelude::*;

use crate::lexicon::push_words;

verus! {

/// The adjective word list, in the order the search expects.
pub fn adjective_words() -> Vec<String> {
    let mut v: Vec<String> = Vec::new();
    push_words(&mut v, "migleeg flugril snearaub clobli jispend riohiop taspoush braumeeb drimib");
    push_words(&mut v, "gluploord kloufrik plauwour sleaspoog stimaust viwe bleplaurd caisiorn");
    push_words(&mut v, "crioturd fiomaswos froonord haiclaurd kiprees loaboarm neglind preslix");
    push_words(&mut v, "skaugeesh smeespag spauskurm strustriox troafreer wiskeer biowurd blouspio");
    push_words(&mut v, "broahult cleanaird cooskoub dioread faicrird flegoond fraigoort glaubluf");
    push_words(&mut v, "grifis hovaink kaibraif klepraf koubeasud luskauck mupos paslourk poastoos");
    push_words(&mut v, "punospeeng seaswarn skoareng slouclerd smoaskoul snoospoard spunind streazoak");
    push_words(&mut v, "swiobouf tougrag tugrind vustoap zeeklurk beecu blaudaust bloamaisk boroafreat");
    push_words(&mut v, "breegraind brooceab ciment clibroon clufrent craustrab cuswag drauclest");
    push_words(&mut v, "droulaurd fecliock fleasour flipraig foskoork freastraip gauzoark gloasloust");
    push_words(&mut v, "graklouwu grotoorm heelack jeebeeng josloang kearait klauprionk klocrelt");
    push_words(&mut v, "kodrau lapraut looblup mauzeack mobes naigreas noraur pemai pliostreef");
    push_words(&mut v, "prasnoab progladesk raumek rouspat siostroam skiglik slaukleb sloawuk");
    push_words(&mut v, "smaiclalt smetoarn snaglispoa snioslaix soplast spiosmig steastant stosmoard");
    push_words(&mut v, "stroastrus swaicrusk swoupleak tipriond trautrak trouswaund veerit voociblird");
    push_words(&mut v, "weafunt wuspoonuck zoablas bauprirk bikoast blaigroong bleanun bliturt");
    push_words(&mut v, "blootourm bocrir bracrak breapeenk briogeap broflo bruswaick ceblairm claivern");
    push_words(&mut v, "cleesnak clitoung cloucroag coacroleep craifean crijeark croodrim dauziom");
    push_words(&mut v, "doojunt dreblook drivoard drunirk fausno festrog flaskiof fleegleab fliodraul");
    push_words(&mut v, "flogegrit foagik foujoot frauhe freswib gaicrairn giveel gliciof glouflount");
    push_words(&mut v, "goodoun greebeart groafoux gubin heakliof hoaristex jaizeenk jestatrest");
    push_words(&mut v, "joakior jouneesk kaupaush keroost klaiswerk kleastroa klioflead kloodaick");
    push_words(&mut v, "kluvoork koogauk kouturd leezeant loalask lopep mapux meeflas mioroad mougroum");
    push_words(&mut v, "nafraush naswaunt noaspoub nuserd peafest pioglior plilosh ploowob praboat");
    push_words(&mut v, "preafoank priofreak prupiok raistrub rebludog roonea saipoupoaf selauck");
    push_words(&mut v, "skaicirm skeawaud skiosmolt skouran sleableask sliocleeg sloohoup slouveark");
    push_words(&mut v, "smeahoun smejiong smiozoalt smujir snapliorm sneeblourk sniviolt snuswond");
    push_words(&mut v, "spaipreash speespeak spoupoor staileag stefrerd stoafrard stouswaisk strerop");
    push_words(&mut v, "strouglain sucaudreck sweecirk swoaplearn taileask teskaip toodrack traifreerk");
    push_words(&mut v, "treespup troskeack trubroaf valaisloub viriflul voaflon vosleert waubeacick");
    push_words(&mut v, "wekib wofeart zeawoark ziokaux zosnoang baiskiodas beboo benoam biospoock");
    push_words(&mut v, "blablaig blajiob bleacoork bleavurm blistionk blizoklolt bloaziorm blorick");
    push_words(&mut v, "bluteab bograp boukloap brainairk brazoack brecrard brevijark bristousk");
    push_words(&mut v, "broaswant brojis brooskoat buprosk ceadiprel cegrurk cismest clauplut cledoom");
    push_words(&mut v, "cleklou cliotuten cloaglot cloteble cloutio cluploart coagaum coufout cranink");
    push_words(&mut v, "creesmiot criojag croaspex croutreel daiskap deestroolt doabrum draimal");
    push_words(&mut v, "dreamool drigliog driosmud droosnaurt drufark duclir faizoub feafleesh feeglal");
    push_words(&mut v, "fiobef fistait flaubloos fledeelt fleeslaint fletous fliopraish flizeex");
    push_words(&mut v, "floosneesh fluroarn foastroort fospeern foveeteeck frasot freakleag freslausk");
    push_words(&mut v, "frizeest frooreesh gakloask geeswern glaiplea glauzeant gliplish glogush");
    push_words(&mut v, "glouklurm goklound goustaird grauklind greesteb griotat grorem grubeaspag");
    push_words(&mut v, "hagool hasaut heecoojoos hiocreb hooproap hugont jauloas jeestoask jioblount");
    push_words(&mut v, "jitroug joofon joufloub jufleep kaliont kauteen keesiorn kibouspees kiproor");
    push_words(&mut v, "klaspush kleablup kleesweet klijeert klioswep klogroo klooklault klouvair");
    push_words(&mut v, "koagoap kohoug koopiont kouglush laigrios leegaurn leskaurk loadiob lodoosh");
    push_words(&mut v, "loofop loziorn madiod maubroast meanuf meesmoos mioclod moajog moorand muband");
    push_words(&mut v, "muzuhaick naidous nakliork nawaisk nizarm nooplorm nucloodiom paicam pauspeen");
    push_words(&mut v, "peeful pibloosh placrail pleatrep plioplick ploanaid plougaunk poogoonk");
    push_words(&mut v, "praprash praugliog preaspaik priceng priowiort prooleeck pruskof pusmerd");
    push_words(&mut v, "raudroarn reacre rigrutoont rodoank rouflaif saibleex sauslourn seazep sihoa");
    push_words(&mut v, "sizainurt skaslaub skauspok skeecroolt skiofraug skisniog skooheack skuwas");
    push_words(&mut v, "slaustrook sleagrant sleeger sloaplark slohend slosturn slouklush slureesk");
    push_words(&mut v, "smaroos smecain smeeveehu smeslex smiklaug smivaud smougreank smuteend");
    push_words(&mut v, "snaiprood snaweast sneata snesmeeck sniostouck snoaclaick snoucaid sokacroolt");
    push_words(&mut v, "souhenk spaubrourt speaskoul spiobousk spoakleem spubrio staglir steaskaud");
    push_words(&mut v, "stecunk stesnag stiomaus stooklog stousmoork straudo stregroap strifrairn");
    push_words(&mut v, "strosmob strumeand stureank swafloorn swaublaurn swemoolt swiotrart swotiork");
    push_words(&mut v, "swujob taitaur tauvoug tidrix toadeak tooprounk tracleax trairirk trazick");
    push_words(&mut v, "triobraug troodrood trotoal trouwaunt truwoon tusock vauskern vesmiont vitrean");
    push_words(&mut v, "voacloot voclearm vootust vubloat wableand weacland weasmand wioskaurd woagled");
    push_words(&mut v, "wouhousk zauglunt zecrern zejoum ziweng zookoul zoufrerm baicraib baismaub");
    push_words(&mut v, "beapreast beeclab beetraurd bibro bioflon biotuk biroorn blaidoarm blaireack");
    push_words(&mut v, "blaseecaud blaumiosk bleahe bleareng bleepeast blioseent blitrund bliwaist");
    push_words(&mut v, "bloafleack bloaswousk bloazish bloplaud blosmoax blovouneak boacaun boflick");
    push_words(&mut v, "booploa boskeef bourent braijeant brauceesh brave breaklouf breaspon");
    push_words(&mut v, "breecraurt breerurd brigrealt briojock broacalt broajel broblond brogaunt");
    push_words(&mut v, "bromaunk brooseeck broujeeck bumid butoog causkoung cealord ceejail ceneasparn");
    push_words(&mut v, "cionehaush claifaur clauklang cleakaurd cleasmeeng cleedriort cleesweb");
    push_words(&mut v, "cletreast clioheeb clitaif cloafrekux cloalorn clospa clotroond cloukaul");
    push_words(&mut v, "clouwerk cluplask coabroort coadush coarosmi costoort cragaip craiprand");
    push_words(&mut v, "crausnoob creaglaird creesnert crinort crionoos croasmard croocreast crootraib");
    push_words(&mut v, "crutrent dafeart daufliok declios dinoosk ditrukilt doasoant doosterd");
    push_words(&mut v, "draitriork dreadrand dreastu dreevea drijoodab drioskirt drisweex droosloong");
    push_words(&mut v, "droudriong drousio drumank drusmail dustriod faicroloax faufreab fauswaihem");
    push_words(&mut v, "feapreack feedrool feestreex fidoarn fiobloup fiozirt flamaub flaswaurk");
    push_words(&mut v, "flealund fleastrar fleeflaust fleesesh fleeswurk fleslos flezasnear flioharm");
    push_words(&mut v, "flioswink flizaush floapount floorean fluflear flureesh fluswirn foasmaim");
    push_words(&mut v, "foocrung fosmock fotrirk foustel fraifrount fraisnit fraucrust frauwoab");
    push_words(&mut v, "freanoult freeriosh frespoar fridroosh froasmox froopiof froskeab gainoob");
    push_words(&mut v, "gaulood geatasmiod giocucais glaiboat glaublek glauspank gleaspios glifrairm");
    push_words(&mut v, "glitrort gloglef glooswush glouhent glouziot gluwean goocrok gouflarm");
    push_words(&mut v, "grabroock grauhion greatut greestat grefrurt griojarm griowan groosmoum");
    push_words(&mut v, "grostiox grounop grudublai gupreerk haibeem haipifist hauskouf hearoskiol");
    push_words(&mut v, "heehiorm hekeerk hiozof hooplin hooroosk hudraug humaik jaizoond jeasniop");
    push_words(&mut v, "jeesaspood jeraim jioblees jiotoon jitreen joajainoog joodeesk jooman jotalt");
    push_words(&mut v, "joukloum juciond juvesnou kaicriork kauniod kausleart kauzealeeg keatox");
    push_words(&mut v, "keesnaid keverk kifairt kipriosk klaigleal klaiweap klaufais klausmob");
    push_words(&mut v, "kleasmink kleecoon klefrauf kleraig kliobromes klioplurn kloasun klocro");
    push_words(&mut v, "klolost kloodiom kloucork kloujol klukourt koabek koagout koglaush kooblair");
    push_words(&mut v, "kookainin kootraurd koubrush koujaswest kupeerd laijork leazeand leeloafing");
    push_words(&mut v, "lelert lesnior loabreslos loaflealt loastoosk logaspios loobrup loolaick");
    push_words(&mut v, "lowail lublick lutrilt maivum maslound maugrourn meadand meatiot meepoosh");
    push_words(&mut v, "megult mihuf miocrea moafloug moariok moflack moubemort mouriork mugiokoorm");
    push_words(&mut v, "muspeares nacoak naibund naiglant naispor nanaifax nausnais neane niobra");
    push_words(&mut v, "noadrio nogiost noosoock nosteeb nureesk nuswoacung painob pausnand paustrirn");
    push_words(&mut v, "peasousk peestriob pepel pigepant piostir plafouk pleapleex pleflug pliogrib");
    push_words(&mut v, "pliorak ploacoard plooswel plopral plukleniod pogob pouseert prakiop prasmeer");
    push_words(&mut v, "praswust preacrounk prealoud preestrelt prestroask pridaib priosnirk");
    push_words(&mut v, "proablourt prokest prubloot pruplib pukliop pureck raiskirk rapoonoalt");
    push_words(&mut v, "rauklaid raustrear reafund restraux rileerm roafafrood rofresmeek roopla");
    push_words(&mut v, "rousmoank sagrist saikerd saresoont savas seavef seemeank sesturd sioprask");
    push_words(&mut v, "siplouf skahist skaiswoak skasweb skaupreelt skeakesh skebili skefromes");
    push_words(&mut v, "skiodred skiogug skiovounk skoapriorm skocrout skookonk skousujeap slabrel");
    push_words(&mut v, "slauslaig slautous sleaflern sleaheank sleatrind sleewox slioveat sloaprauck");
    push_words(&mut v, "slocloar slomozouck slooleesk sloubrird sloufleark sloustiorn slouveg");
    push_words(&mut v, "slustresk smaiclet smaucref smeajaing smeesliosk smeetearn smegroad smemeab");
    push_words(&mut v, "smesnix smewoan smiogleel smistok smoagreap smostoob smufrent smuswekeeg");
    push_words(&mut v, "snagai snaigresh snakasnerd snasist sneaneerk sneaskun snedaing sneenios");
    push_words(&mut v, "snidoux sniospoast snistred snoabreaf snoatriol snootoash snounoun sogest");
    push_words(&mut v, "soogra sougreewop spaceab spaubraung spauhorm speapraish speeprault spestroof");
    push_words(&mut v, "spioklarn spiotreard spoosaick spouroork spuheeck stacrearn stagroux staumourd");
    push_words(&mut v, "steasloost steawox steesmeeck stemau steswousk stiocot stistoost stodauf");
    push_words(&mut v, "stoozount stouhorn stoustul straswoant streagent stregaurm strehil stridriosh");
    push_words(&mut v, "stroaguck strooskop stroubaick strujoos strumist struvoond stustrank sugloonk");
    push_words(&mut v, "swaiboud swaisweenk swaudriong sweegock sweviof swionoorn swoacreelt swooglio");
    push_words(&mut v, "swoukourk swucrehack tafong taisoang taiwionk tauskelt teestrio testugoat");
    push_words(&mut v, "tiotrarm tiwiogick toanook toofeetrun toslouswo touwourn trafle traiplark");
    push_words(&mut v, "traiskeek trauzaink treanaur trezairt triveed troastoosh troopund trosop");
    push_words(&mut v, "trougrum troutriol trublaud trustaud tuglaurd tusiord vagul vaspiont veefleerk");
    push_words(&mut v, "verean vidruheep vitereep vivaurn voablal voadeng voaploab vofoack voosat");
    push_words(&mut v, "voowint voujaujoax vuroalt vutarm waigland wautalib weafoond wearelt weeskar");
    push_words(&mut v, "wesnaick wiowoas wisnebaix woazourm woogent wozoop zaisweg zausmoash zecond");
    push_words(&mut v, "zeeblun zeeredau ziojiol zistrios ziwunt zookel zooplend zotrur zoveerd");
    push_words(&mut v, "baiclouk");
    v
}

} // verus!
